//! The two channels the registry rests on: a one-shot decision channel per
//! pending request, and the broadcast hub that announces new requests.
//!
//! Both come from `tokio::sync`. Their behaviour is not proved here; each
//! function below states what is assumed of the call it makes. A half of a
//! channel is an opaque value, so what is assumed is said over a few names:
//! the channel that a half belongs to, what the hub has taken in, and how
//! much of that a receiver has missed.

use vstd::prelude::*;
use crate::routes::sampling::SamplingRequest;

verus! {

/// `tokio::sync::oneshot::Sender`, the producing half of a decision channel.
/// Nothing of what is inside is known here.
#[verifier::external_type_specification]
#[verifier::external_body]
#[verifier::reject_recursive_types(T)]
pub struct ExDecisionSender<T>(tokio::sync::oneshot::Sender<T>);

/// `tokio::sync::oneshot::Receiver`, the half of a decision channel on which
/// the waiter waits.
#[verifier::external_type_specification]
#[verifier::external_body]
#[verifier::reject_recursive_types(T)]
pub struct ExDecisionReceiver<T>(tokio::sync::oneshot::Receiver<T>);

/// `tokio::sync::oneshot::error::RecvError`, what a waiter gets where the
/// producer was dropped without sending.
#[verifier::external_type_specification]
#[verifier::external_body]
pub struct ExRecvError(tokio::sync::oneshot::error::RecvError);

/// The decision channel that a producing half belongs to. Two halves belong
/// to one channel exactly if they share its state.
pub uninterp spec fn producer_channel(tx: tokio::sync::oneshot::Sender<bool>) -> int;

/// The decision channel that a waiting half belongs to.
pub uninterp spec fn waiter_channel(rx: tokio::sync::oneshot::Receiver<bool>) -> int;

/// Calls `tokio::sync::oneshot::channel`. The two halves it returns belong
/// to one channel: what is sent on the first is what the second receives.
#[verifier::external_body]
pub(crate) fn decision_channel() -> (pair: (
    tokio::sync::oneshot::Sender<bool>,
    tokio::sync::oneshot::Receiver<bool>,
))
    ensures
        producer_channel(pair.0) == waiter_channel(pair.1),
{
    tokio::sync::oneshot::channel()
}

/// Calls `tokio::sync::oneshot::Sender::send`. The call either reports
/// success or hands the value back because the receiving half is gone; in
/// the second case the value handed back is the one that was given.
#[verifier::external_body]
pub(crate) fn send_decision(tx: tokio::sync::oneshot::Sender<bool>, approved: bool) -> (sent:
    Result<(), bool>)
    ensures
        sent matches Err(back) ==> back == approved,
{
    tx.send(approved)
}

/// `tokio::sync::broadcast::Sender`, the hub.
#[verifier::external_type_specification]
#[verifier::external_body]
#[verifier::reject_recursive_types(T)]
pub struct ExHubSender<T>(tokio::sync::broadcast::Sender<T>);

/// `tokio::sync::broadcast::Receiver`, one subscriber's end of the hub.
#[verifier::external_type_specification]
#[verifier::external_body]
#[verifier::reject_recursive_types(T)]
pub struct ExHubReceiver<T>(tokio::sync::broadcast::Receiver<T>);

/// The hub that a sending half belongs to.
pub uninterp spec fn sender_hub(hub: tokio::sync::broadcast::Sender<SamplingRequest>) -> int;

/// The hub that a receiver belongs to.
pub uninterp spec fn receiver_hub(
    receiver: tokio::sync::broadcast::Receiver<SamplingRequest>,
) -> int;

/// The requests that the hub has taken in, in the order in which they came:
/// one for each call of `send` that found a receiver subscribed. A request
/// that came while nobody was subscribed was given back and is not among
/// them.
pub uninterp spec fn handed(hub: tokio::sync::broadcast::Sender<SamplingRequest>) -> Seq<
    SamplingRequest,
>;

/// How many requests the hub had taken in when this receiver subscribed. The
/// receiver is told of none of them.
pub uninterp spec fn missed(receiver: tokio::sync::broadcast::Receiver<SamplingRequest>) -> nat;

/// Calls `tokio::sync::broadcast::channel` and keeps the sending half of a
/// hub that has taken in nothing yet. The receiving half is dropped, so the
/// hub starts with nobody subscribed. The call panics on a capacity of zero
/// or above `usize::MAX / 2`, so both are left out.
#[verifier::external_body]
pub(crate) fn open_hub(capacity: usize) -> (hub: tokio::sync::broadcast::Sender<SamplingRequest>)
    requires
        0 < capacity <= usize::MAX / 2,
    ensures
        handed(hub) == Seq::<SamplingRequest>::empty(),
{
    tokio::sync::broadcast::channel(capacity).0
}

/// Calls `tokio::sync::broadcast::Sender::send`, which waits for no
/// receiver. The hub stays the same hub. Where at least one receiver is
/// subscribed the hub takes the value in and the call returns the number of
/// receivers; where none is, the hub takes nothing in and the call gives the
/// value back.
#[verifier::external_body]
pub(crate) fn publish(
    hub: &mut tokio::sync::broadcast::Sender<SamplingRequest>,
    value: SamplingRequest,
) -> (sent: Result<usize, SamplingRequest>)
    ensures
        sender_hub(*final(hub)) == sender_hub(*old(hub)),
        sent matches Ok(told) ==> told >= 1 && handed(*final(hub)) == handed(*old(hub)).push(
            value,
        ),
        sent matches Err(back) ==> back == value && handed(*final(hub)) == handed(*old(hub)),
{
    match hub.send(value) {
        Ok(receivers) => Ok(receivers),
        Err(tokio::sync::broadcast::error::SendError(back)) => Err(back),
    }
}

/// Calls `tokio::sync::broadcast::Sender::subscribe`. The receiver it
/// returns belongs to the hub it was asked of, and is told of what the hub
/// takes in after this call only: it has missed all that the hub had taken
/// in before. The call panics only when the hub already has
/// `usize::MAX / 4` receivers, more than memory can hold.
#[verifier::external_body]
pub(crate) fn subscribe(hub: &tokio::sync::broadcast::Sender<SamplingRequest>) -> (receiver:
    tokio::sync::broadcast::Receiver<SamplingRequest>)
    ensures
        receiver_hub(receiver) == sender_hub(*hub),
        missed(receiver) == handed(*hub).len(),
{
    hub.subscribe()
}

} // verus!
