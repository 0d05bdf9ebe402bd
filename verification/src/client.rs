use vstd::prelude::*;

verus! {

/// A client of a remote service, as it is kept for reuse between calls.
#[derive(Clone)]
pub struct GrpcClientConnection<T: Clone> {
    pub client: T,
}

impl<T: Clone> GrpcClientConnection<T> {
    /// A connection that holds `client`.
    pub fn new(client: T) -> (r: Self)
        ensures
            r.client == client,
    {
        GrpcClientConnection { client }
    }
}

/// The status code with which a call fails where the service cannot be
/// reached.
pub const UNAVAILABLE: i32 = 14;

/// Whether a call that failed with the status code `code` calls for a new
/// connection: the service could not be reached.
pub fn requires_reconnect(code: i32) -> (r: bool)
    ensures
        r == (code == UNAVAILABLE),
{
    code == UNAVAILABLE
}

/// What happened to a call, as its driver reports it.
#[derive(Clone, Copy, Debug, PartialEq, Eq, Structural)]
pub enum CallEvent {
    /// The attempt gave a result.
    Succeeded,
    /// The attempt failed with this status code.
    Failed(i32),
    /// The retry policy allows one more attempt.
    RetryGranted,
    /// The retry policy allows no further attempt.
    RetryDenied,
}

/// Where a call stands.
#[derive(Clone, Copy, Debug, PartialEq, Eq, Structural)]
pub enum CallState {
    /// An attempt is under way.
    Attempting,
    /// The connection was dropped, and the retry policy is being asked.
    AwaitingRetry,
    /// The call is over.
    Finished,
}

/// What the driver of a call does next.
#[derive(Clone, Copy, Debug, PartialEq, Eq, Structural)]
pub enum CallAction {
    /// Make an attempt, on a connection that is made first if none is kept.
    Attempt,
    /// Hand the result of the last attempt to the caller.
    ReturnResult,
    /// Drop the connection that is kept, and ask the retry policy.
    DropConnection,
    /// Hand the error of the last attempt to the caller.
    ReturnError,
    /// Nothing: the event does not belong to the state.
    Ignore,
}

/// The state that follows `state` on `event`, and what the driver does
/// next. A result ends the call. A failure ends it too, unless the service
/// could not be reached: then the connection is dropped and the retry
/// policy decides between one more attempt and the error.
pub open spec fn call_step_spec(state: CallState, event: CallEvent) -> (CallState, CallAction) {
    match (state, event) {
        (CallState::Attempting, CallEvent::Succeeded) => (
            CallState::Finished,
            CallAction::ReturnResult,
        ),
        (CallState::Attempting, CallEvent::Failed(code)) => if code == UNAVAILABLE {
            (CallState::AwaitingRetry, CallAction::DropConnection)
        } else {
            (CallState::Finished, CallAction::ReturnError)
        },
        (CallState::AwaitingRetry, CallEvent::RetryGranted) => (
            CallState::Attempting,
            CallAction::Attempt,
        ),
        (CallState::AwaitingRetry, CallEvent::RetryDenied) => (
            CallState::Finished,
            CallAction::ReturnError,
        ),
        (state, _) => (state, CallAction::Ignore),
    }
}

/// The state that follows `state` on `event`, and what the driver does
/// next: see [`call_step_spec`].
pub fn call_step(state: CallState, event: CallEvent) -> (r: (CallState, CallAction))
    ensures
        r == call_step_spec(state, event),
{
    match state {
        CallState::Attempting => match event {
            CallEvent::Succeeded => (CallState::Finished, CallAction::ReturnResult),
            CallEvent::Failed(code) => if requires_reconnect(code) {
                (CallState::AwaitingRetry, CallAction::DropConnection)
            } else {
                (CallState::Finished, CallAction::ReturnError)
            },
            _ => (state, CallAction::Ignore),
        },
        CallState::AwaitingRetry => match event {
            CallEvent::RetryGranted => (CallState::Attempting, CallAction::Attempt),
            CallEvent::RetryDenied => (CallState::Finished, CallAction::ReturnError),
            _ => (state, CallAction::Ignore),
        },
        CallState::Finished => (state, CallAction::Ignore),
    }
}

} // verus!
