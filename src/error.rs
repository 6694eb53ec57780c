use vstd::prelude::*;

verus! {

/// A send found the mailbox at capacity.
#[derive(Debug, Clone, Copy, PartialEq, Eq, Structural)]
pub enum ChannelError {
    Full,
}

/// A request found every response slot reserved.
#[derive(Debug, Clone, Copy, PartialEq, Eq, Structural)]
pub enum SignalError {
    NoAvailableSignal,
}

/// The errors that `notify` and `request` report to their caller.
#[derive(Debug, Clone, Copy, PartialEq, Eq, Structural)]
pub enum ActorError {
    Channel(ChannelError),
    Signal(SignalError),
}

impl From<SignalError> for ActorError {
    fn from(error: SignalError) -> (r: ActorError)
        ensures
            r == ActorError::Signal(error),
    {
        ActorError::Signal(error)
    }
}

impl vstd::std_specs::convert::FromSpecImpl<SignalError> for ActorError {
    open spec fn obeys_from_spec() -> bool {
        true
    }

    open spec fn from_spec(error: SignalError) -> ActorError {
        ActorError::Signal(error)
    }
}

impl From<ChannelError> for ActorError {
    fn from(error: ChannelError) -> (r: ActorError)
        ensures
            r == ActorError::Channel(error),
    {
        ActorError::Channel(error)
    }
}

impl vstd::std_specs::convert::FromSpecImpl<ChannelError> for ActorError {
    open spec fn obeys_from_spec() -> bool {
        true
    }

    open spec fn from_spec(error: ChannelError) -> ActorError {
        ActorError::Channel(error)
    }
}

} // verus!
