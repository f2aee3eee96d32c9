//! The approval gate: the one way by which an extension asks for a verdict.
//!
//! Asking has three steps. The request is registered, which also announces
//! it; the caller waits on the decision channel; and what the channel gave is
//! turned into the answer. The first and the last step are here. The wait
//! belongs to the caller, who must not hold the state while waiting.

use vstd::prelude::*;
use crate::channel::waiter_channel;
use crate::routes::sampling::SamplingRequest;
use crate::state::{accepts, registers, AppState, AppStateView, RegistryError};

verus! {

/// Why an extension got no verdict.
#[derive(Debug)]
pub enum ApprovalError {
    /// The request could not be registered: its identifier was pending.
    RegistrationFailed(String),
    /// The decision channel was closed before a verdict was given.
    ChannelClosed,
}

impl ApprovalError {
    /// The text of the error, as shown to a caller.
    pub fn message(&self) -> (text: String)
        ensures
            text@ == match *self {
                ApprovalError::RegistrationFailed(id) => "Sampling request already pending: "@
                    + id@,
                ApprovalError::ChannelClosed => "Approval channel closed"@,
            },
    {
        match self {
            ApprovalError::RegistrationFailed(id) => RegistryError::DuplicateId(
                id.clone(),
            ).message(),
            ApprovalError::ChannelClosed => "Approval channel closed".to_owned(),
        }
    }
}

/// Calls `uuid::Uuid::new_v4` and writes the identifier as text. The
/// identifier is random: nothing is claimed of it. The call panics where the
/// system's source of randomness fails, which no input decides.
#[verifier::external_body]
fn fresh_request_id() -> (id: String) {
    uuid::Uuid::new_v4().to_string()
}

/// Registers `request` and returns the waiting half of the decision channel
/// whose producer was filed for it. A request whose identifier is pending is
/// refused and changes nothing.
pub fn submit(state: &mut AppState, request: SamplingRequest) -> (outcome: Result<
    tokio::sync::oneshot::Receiver<bool>,
    ApprovalError,
>)
    requires
        old(state).wf(),
    ensures
        final(state).wf(),
        outcome is Ok <==> accepts(old(state)@, request),
        outcome matches Ok(waiter) ==> registers(
            old(state)@,
            final(state)@,
            request,
            waiter_channel(waiter),
        ),
        outcome matches Err(error) ==> {
            &&& error == ApprovalError::RegistrationFailed(request.id)
            &&& *final(state) == *old(state)
        },
{
    match state.add_sampling_request(request) {
        Ok(receiver) => Ok(receiver),
        Err(refusal) => Err(ApprovalError::RegistrationFailed(refusal.into_id())),
    }
}

/// `after` is `before` after the registration of one more request: one of
/// `extension_name` with the payload `params`, under an identifier that was
/// not taken, filed with a producer on `channel`.
pub open spec fn registers_fresh(
    before: AppStateView,
    after: AppStateView,
    extension_name: String,
    params: rmcp::model::CreateMessageRequestParams,
    channel: int,
) -> bool {
    exists|id: String|
        {
            &&& accepts(before, (SamplingRequest { id, extension_name, params }))
            &&& registers(before, after, (SamplingRequest { id, extension_name, params }), channel)
        }
}

/// Registers a request of `extension_name` with the payload `params` under a
/// fresh identifier. On success exactly that request has become pending. The
/// call fails only where the identifier drawn is that of a pending request,
/// which it then names, and then nothing has changed; so it succeeds
/// wherever nothing is pending.
pub fn begin_approval(
    state: &mut AppState,
    extension_name: String,
    params: rmcp::model::CreateMessageRequestParams,
) -> (outcome: Result<tokio::sync::oneshot::Receiver<bool>, ApprovalError>)
    requires
        old(state).wf(),
    ensures
        final(state).wf(),
        (forall|id: Seq<char>| !old(state)@.filed.dom().contains(id)) ==> outcome is Ok,
        outcome matches Ok(waiter) ==> registers_fresh(
            old(state)@,
            final(state)@,
            extension_name,
            params,
            waiter_channel(waiter),
        ),
        outcome matches Err(error) ==> {
            &&& error matches ApprovalError::RegistrationFailed(id)
            &&& old(state)@.filed.dom().contains(id@)
            &&& *final(state) == *old(state)
        },
{
    let request = SamplingRequest { id: fresh_request_id(), extension_name, params };
    submit(state, request)
}

/// Turns what the decision channel gave into the answer: the verdict as it
/// was sent, or `ChannelClosed` where the producer was dropped without
/// sending. A closed channel is never read as a rejection.
pub fn conclude(received: Result<bool, tokio::sync::oneshot::error::RecvError>) -> (outcome: Result<
    bool,
    ApprovalError,
>)
    ensures
        outcome == match received {
            Ok(approved) => Ok::<bool, ApprovalError>(approved),
            Err(_) => Err(ApprovalError::ChannelClosed),
        },
{
    match received {
        Ok(approved) => Ok(approved),
        Err(_) => Err(ApprovalError::ChannelClosed),
    }
}

} // verus!
