//! A cooperative actor kernel: bounded mailboxes, a pool of response slots
//! for request/response calls, and the resumable state machine that drives
//! one actor.

mod actor;
mod channel;
mod error;
mod laws;
mod signal;

pub use channel::MessageChannel;
pub use error::{ActorError, ChannelError, SignalError};
pub use signal::{SignalPool, SignalSlot, SlotRef, SlotState};
pub use actor::{Action, ActorContext, ActorMessage, ActorState, ContextModel, Event, RequestHandle};
pub use laws::{collected_slot_is_reused, dispatch_in_send_order, exhausted_pool_refuses, full_mailbox_refuses, request_round_trip};
