use drogue_device::{Action, ActorContext, ActorError, ActorState, ChannelError, Event, SignalError};

/// Runs the actor until it waits for mail, handing each message to `handler`.
fn step_actor<M, R>(ctx: &mut ActorContext<M, R>, handler: &mut dyn FnMut(M) -> R) {
    let mut event = Event::Resumed;
    loop {
        match ctx.advance(event) {
            Action::Start => event = Event::Started,
            Action::Handle(m) => event = Event::Handled(handler(m)),
            Action::Wait => return,
        }
    }
}

struct TestMessage(u32);

fn dummy(_: TestMessage) {}

#[test]
fn test_multiple_notifications() {
    let mut actor: ActorContext<TestMessage, ()> = ActorContext::new(1);

    let result_1 = actor.notify(TestMessage(0));
    let result_2 = actor.notify(TestMessage(1));

    assert!(result_1.is_ok());
    assert!(result_2.is_err());

    step_actor(&mut actor, &mut dummy);
    let result_2 = actor.notify(TestMessage(1));
    assert!(result_2.is_ok());
}

#[test]
fn test_multiple_requests() {
    let mut actor: ActorContext<TestMessage, ()> = ActorContext::new(1);

    let result_fut_1 = actor.request(TestMessage(0));
    let result_fut_2 = actor.request(TestMessage(1));
    assert!(result_fut_1.is_ok());
    assert!(result_fut_2.is_err());

    let fut_1 = result_fut_1.unwrap();
    while actor.poll_response(&fut_1).is_none() {
        step_actor(&mut actor, &mut dummy);
    }

    let result_fut_2 = actor.request(TestMessage(1));
    assert!(result_fut_2.is_ok());

    let fut_2 = result_fut_2.unwrap();
    while actor.poll_response(&fut_2).is_none() {
        step_actor(&mut actor, &mut dummy);
    }
}

#[test]
fn second_notify_on_full_mailbox_is_mailbox_full() {
    let mut ctx: ActorContext<u32, ()> = ActorContext::new(1);
    assert_eq!(ctx.notify(0), Ok(()));
    assert_eq!(ctx.notify(1), Err(ActorError::Channel(ChannelError::Full)));
    assert_eq!(ctx.pending(), 1);
    let mut seen = Vec::new();
    step_actor(&mut ctx, &mut |m| seen.push(m));
    assert_eq!(seen, vec![0]);
    assert_eq!(ctx.notify(1), Ok(()));
}

#[test]
fn second_request_without_free_slot_is_refused() {
    let mut ctx: ActorContext<u32, u32> = ActorContext::new(1);
    let first = ctx.request(0).unwrap();
    match ctx.request(1) {
        Err(e) => assert_eq!(e, ActorError::Signal(SignalError::NoAvailableSignal)),
        Ok(_) => panic!("a second request must be refused"),
    }
    // the refused request enqueued nothing
    assert_eq!(ctx.pending(), 1);
    assert_eq!(ctx.poll_response(&first), None);
    step_actor(&mut ctx, &mut |m| m + 100);
    assert_eq!(ctx.poll_response(&first), Some(100));
    assert!(ctx.request(1).is_ok());
}

#[test]
fn echo_request_returns_its_message() {
    let mut ctx: ActorContext<String, String> = ActorContext::new(1);
    let handle = ctx.request("PING".to_string()).unwrap();
    step_actor(&mut ctx, &mut |m| m);
    assert_eq!(ctx.poll_response(&handle), Some("PING".to_string()));
}

#[test]
fn messages_are_handled_in_send_order() {
    let mut ctx: ActorContext<u32, u32> = ActorContext::new(4);
    assert!(ctx.notify(1).is_ok());
    let h = ctx.request(2).unwrap();
    assert!(ctx.notify(3).is_ok());
    assert!(ctx.notify(4).is_ok());
    assert_eq!(ctx.notify(5), Err(ActorError::Channel(ChannelError::Full)));
    let mut seen = Vec::new();
    step_actor(&mut ctx, &mut |m| {
        seen.push(m);
        m * 10
    });
    assert_eq!(seen, vec![1, 2, 3, 4]);
    assert_eq!(ctx.poll_response(&h), Some(20));
}

#[test]
fn concurrent_requests_get_their_own_responses() {
    let mut ctx: ActorContext<u32, u32> = ActorContext::new(2);
    let a = ctx.request(3).unwrap();
    let b = ctx.request(5).unwrap();
    step_actor(&mut ctx, &mut |m| m * m);
    assert_eq!(ctx.poll_response(&b), Some(25));
    assert_eq!(ctx.poll_response(&a), Some(9));
    // each response is handed out once
    assert_eq!(ctx.poll_response(&a), None);
    assert_eq!(ctx.poll_response(&b), None);
}

#[test]
fn collected_slot_serves_the_next_request() {
    let mut ctx: ActorContext<u32, u32> = ActorContext::new(1);
    for i in 0..5u32 {
        let h = ctx.request(i).unwrap();
        assert!(ctx.request(i).is_err());
        step_actor(&mut ctx, &mut |m| m + 1);
        assert_eq!(ctx.poll_response(&h), Some(i + 1));
    }
}

#[test]
fn old_handle_does_not_collect_a_later_response() {
    let mut ctx: ActorContext<u32, u32> = ActorContext::new(1);
    let old = ctx.request(1).unwrap();
    step_actor(&mut ctx, &mut |m| m);
    assert_eq!(ctx.poll_response(&old), Some(1));
    let new = ctx.request(2).unwrap();
    step_actor(&mut ctx, &mut |m| m);
    assert_eq!(ctx.poll_response(&old), None);
    assert_eq!(ctx.poll_response(&new), Some(2));
}

#[test]
fn request_on_full_mailbox_frees_its_slot() {
    let mut ctx: ActorContext<u32, u32> = ActorContext::new(2);
    assert!(ctx.notify(1).is_ok());
    assert!(ctx.notify(2).is_ok());
    match ctx.request(3) {
        Err(e) => assert_eq!(e, ActorError::Channel(ChannelError::Full)),
        Ok(_) => panic!("the mailbox is full"),
    }
    step_actor(&mut ctx, &mut |m| m);
    // both slots are free again
    let a = ctx.request(4).unwrap();
    let b = ctx.request(5).unwrap();
    step_actor(&mut ctx, &mut |m| m);
    assert_eq!(ctx.poll_response(&a), Some(4));
    assert_eq!(ctx.poll_response(&b), Some(5));
}

#[test]
fn state_machine_starts_before_dispatching() {
    let mut ctx: ActorContext<u32, u32> = ActorContext::new(1);
    assert_eq!(ctx.state(), ActorState::Idle);
    assert!(ctx.notify(7).is_ok());
    assert!(matches!(ctx.advance(Event::Resumed), Action::Start));
    assert_eq!(ctx.state(), ActorState::Starting);
    // on_start has not completed: nothing is dispatched
    assert!(matches!(ctx.advance(Event::Resumed), Action::Wait));
    assert_eq!(ctx.state(), ActorState::Starting);
    assert!(matches!(ctx.advance(Event::Started), Action::Handle(7)));
    assert_eq!(ctx.state(), ActorState::HandlingNotify);
    assert!(matches!(ctx.advance(Event::Resumed), Action::Wait));
    assert_eq!(ctx.state(), ActorState::HandlingNotify);
    assert!(matches!(ctx.advance(Event::Handled(0)), Action::Wait));
    assert_eq!(ctx.state(), ActorState::Receiving);
    assert_eq!(ctx.capacity(), 1);
}

#[test]
fn request_state_names_its_slot() {
    let mut ctx: ActorContext<u32, u32> = ActorContext::new(2);
    assert!(matches!(ctx.advance(Event::Resumed), Action::Start));
    assert!(matches!(ctx.advance(Event::Started), Action::Wait));
    let h = ctx.request(9).unwrap();
    assert!(matches!(ctx.advance(Event::Resumed), Action::Handle(9)));
    match ctx.state() {
        ActorState::HandlingRequest(slot) => assert_eq!(slot.index, 0),
        other => panic!("unexpected state {:?}", other),
    }
    assert_eq!(ctx.poll_response(&h), None);
    assert!(matches!(ctx.advance(Event::Handled(81)), Action::Wait));
    assert_eq!(ctx.poll_response(&h), Some(81));
}

#[test]
fn errors_convert_into_actor_error() {
    assert_eq!(ActorError::from(ChannelError::Full), ActorError::Channel(ChannelError::Full));
    assert_eq!(
        ActorError::from(SignalError::NoAvailableSignal),
        ActorError::Signal(SignalError::NoAvailableSignal)
    );
}
