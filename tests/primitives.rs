use drogue_device::{ChannelError, MessageChannel, SignalPool, SlotRef};

#[test]
fn channel_is_fifo_and_bounded() {
    let mut ch: MessageChannel<u8> = MessageChannel::new(2);
    assert_eq!(ch.capacity(), 2);
    assert_eq!(ch.receive(), None);
    assert_eq!(ch.send(1), Ok(()));
    assert_eq!(ch.send(2), Ok(()));
    assert_eq!(ch.send(3), Err(ChannelError::Full));
    assert_eq!(ch.len(), 2);
    assert_eq!(ch.receive(), Some(1));
    assert_eq!(ch.send(4), Ok(()));
    assert_eq!(ch.receive(), Some(2));
    assert_eq!(ch.receive(), Some(4));
    assert_eq!(ch.receive(), None);
}

#[test]
fn pool_acquires_first_free_slot() {
    let mut pool: SignalPool<u8> = SignalPool::new(3);
    assert_eq!(pool.len(), 3);
    let a = pool.acquire().unwrap();
    let b = pool.acquire().unwrap();
    assert_eq!(a, SlotRef { index: 0, generation: 0 });
    assert_eq!(b, SlotRef { index: 1, generation: 0 });
    pool.release(a);
    // the released slot is first again, one generation later
    let c = pool.acquire().unwrap();
    assert_eq!(c, SlotRef { index: 0, generation: 1 });
    let d = pool.acquire().unwrap();
    assert_eq!(d.index, 2);
    assert_eq!(pool.acquire(), None);
}

#[test]
fn pool_hands_out_published_value_once() {
    let mut pool: SignalPool<u32> = SignalPool::new(1);
    let r = pool.acquire().unwrap();
    assert_eq!(pool.take(r), None);
    pool.publish(r, 42);
    // a second publish does not overwrite the stored response
    pool.publish(r, 43);
    assert_eq!(pool.take(r), Some(42));
    assert_eq!(pool.take(r), None);
    // a stale reference cannot publish into the reused slot
    let r2 = pool.acquire().unwrap();
    assert_eq!(r2.generation, 1);
    pool.publish(r, 7);
    assert_eq!(pool.take(r2), None);
    pool.publish(r2, 8);
    assert_eq!(pool.take(r), None);
    assert_eq!(pool.take(r2), Some(8));
}
