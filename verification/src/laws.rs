//! What holds of the shared state over several operations.
//!
//! Each operation of the shared state is stated as a function on what the
//! state stands for: `after_registration`, `after_resolution` and
//! `after_withdrawal`. The laws below speak of runs of such operations. The
//! state is changed by one caller at a time, so every concurrent run is one of
//! these runs, in the order in which the callers came.

use vstd::prelude::*;
use crate::routes::sampling::SamplingRequest;
use crate::state::{
    accepts, after_registration, after_resolution, after_withdrawal, is_snapshot, resolves,
    AppStateView, Decision, Filing,
};

verus! {

/// A registration that is asked for: the request, the decision channel whose
/// producer is to be filed for it, and whether the hub takes the request in,
/// which it does where somebody is subscribed.
pub struct Registration {
    pub request: SamplingRequest,
    pub channel: int,
    pub taken: bool,
}

impl Registration {
    /// What is filed for this registration where it is accepted.
    pub open spec fn filing(self) -> Filing {
        Filing { request: self.request, channel: self.channel }
    }
}

/// A resolution that is asked for: of which request, and what it says.
pub struct Verdict {
    pub id: Seq<char>,
    pub approved: bool,
}

/// The state after registering as `registrations` say, one after the other.
pub open spec fn register_all(state: AppStateView, registrations: Seq<Registration>) -> AppStateView
    decreases registrations.len(),
{
    if registrations.len() == 0 {
        state
    } else {
        after_registration(
            register_all(state, registrations.drop_last()),
            registrations.last().request,
            registrations.last().channel,
            registrations.last().taken,
        )
    }
}

/// Whether each of `registrations`, made one after the other, is accepted.
pub open spec fn all_accepted(state: AppStateView, registrations: Seq<Registration>) -> bool
    decreases registrations.len(),
{
    registrations.len() == 0 || (all_accepted(state, registrations.drop_last()) && accepts(
        register_all(state, registrations.drop_last()),
        registrations.last().request,
    ))
}

/// The state after resolving as `verdicts` say, one after the other.
pub open spec fn resolve_all(state: AppStateView, verdicts: Seq<Verdict>) -> AppStateView
    decreases verdicts.len(),
{
    if verdicts.len() == 0 {
        state
    } else {
        resolve_all(
            after_resolution(state, verdicts.first().id, verdicts.first().approved),
            verdicts.drop_first(),
        )
    }
}

/// Whether each of `verdicts`, resolved one after the other, finds its
/// request.
pub open spec fn all_resolved(state: AppStateView, verdicts: Seq<Verdict>) -> bool
    decreases verdicts.len(),
{
    verdicts.len() == 0 || (resolves(state, verdicts.first().id) && all_resolved(
        after_resolution(state, verdicts.first().id, verdicts.first().approved),
        verdicts.drop_first(),
    ))
}

/// The decisions that `verdicts` hand on where each finds its request among
/// `filed`: each on the channel that is filed for its request.
pub open spec fn decisions_of(verdicts: Seq<Verdict>, filed: Map<Seq<char>, Filing>) -> Seq<
    Decision,
> {
    Seq::new(
        verdicts.len(),
        |k: int|
            Decision {
                id: verdicts[k].id,
                channel: filed[verdicts[k].id].channel,
                approved: verdicts[k].approved,
            },
    )
}

/// The requests of `registrations` that the hub takes in, in their order.
pub open spec fn taken_in(registrations: Seq<Registration>) -> Seq<SamplingRequest>
    decreases registrations.len(),
{
    if registrations.len() == 0 {
        Seq::empty()
    } else if registrations.last().taken {
        taken_in(registrations.drop_last()).push(registrations.last().request)
    } else {
        taken_in(registrations.drop_last())
    }
}

/// The identifiers of the requests of `registrations` differ from each
/// other.
pub open spec fn distinct_requests(registrations: Seq<Registration>) -> bool {
    forall|i: int, j: int|
        0 <= i < j < registrations.len() ==> #[trigger] registrations[i].request.id@
            != #[trigger] registrations[j].request.id@
}

/// Whether one of `registrations` is of a request with the identifier `id`.
pub open spec fn is_among(id: Seq<char>, registrations: Seq<Registration>) -> bool {
    exists|i: int| 0 <= i < registrations.len() && #[trigger] registrations[i].request.id@ == id
}

/// Whether one of `verdicts` is on the identifier `id`.
pub open spec fn is_decided(id: Seq<char>, verdicts: Seq<Verdict>) -> bool {
    exists|k: int| 0 <= k < verdicts.len() && #[trigger] verdicts[k].id == id
}

/// No two of `verdicts` are on one identifier.
pub open spec fn distinct_verdicts(verdicts: Seq<Verdict>) -> bool {
    forall|i: int, j: int|
        0 <= i < j < verdicts.len() ==> #[trigger] verdicts[i].id != #[trigger] verdicts[j].id
}

/// `verdicts` decide each request of `registrations` once and nothing else,
/// in whatever order.
pub open spec fn decide_each_once(verdicts: Seq<Verdict>, registrations: Seq<Registration>) -> bool {
    &&& distinct_verdicts(verdicts)
    &&& forall|i: int|
        0 <= i < registrations.len() ==> is_decided(#[trigger] registrations[i].request.id@, verdicts)
    &&& forall|k: int| 0 <= k < verdicts.len() ==> is_among(#[trigger] verdicts[k].id, registrations)
}

/// A request that is accepted and then resolved was taken in by the hub once
/// if somebody was subscribed and not at all otherwise, the decision given
/// is recorded for the producer that was filed for it, and nothing else has
/// changed: it is pending no more.
pub proof fn law_decision_follows_registration(
    state: AppStateView,
    request: SamplingRequest,
    channel: int,
    taken: bool,
    approved: bool,
)
    requires
        accepts(state, request),
    ensures
        resolves(after_registration(state, request, channel, taken), request.id@),
        after_resolution(
            after_registration(state, request, channel, taken),
            request.id@,
            approved,
        ) == (AppStateView {
            announced: if taken {
                state.announced.push(request)
            } else {
                state.announced
            },
            decided: state.decided.push(Decision { id: request.id@, channel, approved }),
            ..state
        }),
{
    let end = after_resolution(
        after_registration(state, request, channel, taken),
        request.id@,
        approved,
    );
    assert(end.filed =~= state.filed);
}

/// A registration under an identifier that is pending changes nothing: the
/// request filed under it and its producer stay as they were, and nothing is
/// handed to the hub.
pub proof fn law_refused_registration_changes_nothing(
    state: AppStateView,
    request: SamplingRequest,
    channel: int,
    taken: bool,
)
    requires
        state.filed.dom().contains(request.id@),
    ensures
        !accepts(state, request),
        after_registration(state, request, channel, taken) == state,
{
}

/// Resolving an identifier that is not pending is refused and changes
/// nothing.
pub proof fn law_unknown_id_changes_nothing(state: AppStateView, id: Seq<char>, approved: bool)
    requires
        !state.filed.dom().contains(id),
    ensures
        !resolves(state, id),
        after_resolution(state, id, approved) == state,
{
}

/// Of two resolutions of one identifier in a row the first is refused only
/// if the identifier was not pending, and the second is refused and changes
/// nothing, whatever it says.
pub proof fn law_second_resolution_is_refused(
    state: AppStateView,
    id: Seq<char>,
    first: bool,
    second: bool,
)
    ensures
        resolves(state, id) <==> state.pending().dom().contains(id),
        !resolves(after_resolution(state, id, first), id),
        after_resolution(after_resolution(state, id, first), id, second) == after_resolution(
            state,
            id,
            first,
        ),
{
}

/// Neither a resolution nor a withdrawal gives the hub anything to take in,
/// and the hub takes in the request of a registration exactly if the
/// registration was accepted and somebody was subscribed. So a receiver
/// that subscribes after a request was resolved has missed that request's
/// announcement.
pub proof fn law_only_registrations_are_announced(
    state: AppStateView,
    request: SamplingRequest,
    channel: int,
    taken: bool,
    id: Seq<char>,
    approved: bool,
)
    ensures
        after_resolution(state, id, approved).announced == state.announced,
        after_withdrawal(state, id).announced == state.announced,
        after_registration(state, request, channel, taken).announced == if accepts(state, request)
            && taken {
            state.announced.push(request)
        } else {
            state.announced
        },
        after_resolution(state, id, approved).hub == state.hub,
        after_withdrawal(state, id).hub == state.hub,
        after_registration(state, request, channel, taken).hub == state.hub,
{
}

/// A withdrawal hands no decision to any producer, and after it the
/// identifier cannot be resolved.
pub proof fn law_withdrawal_decides_nothing(state: AppStateView, id: Seq<char>)
    ensures
        after_withdrawal(state, id).decided == state.decided,
        !resolves(after_withdrawal(state, id), id),
{
}

/// Registering, resolving or withdrawing one identifier does nothing to what
/// is filed under another: the request and its producer stay as they were.
pub proof fn law_other_requests_are_untouched(
    state: AppStateView,
    request: SamplingRequest,
    channel: int,
    taken: bool,
    id: Seq<char>,
    approved: bool,
    other: Seq<char>,
)
    requires
        other != id,
        other != request.id@,
        state.filed.dom().contains(other),
    ensures
        after_registration(state, request, channel, taken).filed.dom().contains(other),
        after_registration(state, request, channel, taken).filed[other] == state.filed[other],
        after_resolution(state, id, approved).filed.dom().contains(other),
        after_resolution(state, id, approved).filed[other] == state.filed[other],
        after_withdrawal(state, id).filed.dom().contains(other),
        after_withdrawal(state, id).filed[other] == state.filed[other],
{
}

/// Every operation keeps each filing under the identifier of its own
/// request.
pub proof fn law_filings_stay_under_their_ids(
    state: AppStateView,
    request: SamplingRequest,
    channel: int,
    taken: bool,
    id: Seq<char>,
    approved: bool,
)
    requires
        state.well_filed(),
    ensures
        after_registration(state, request, channel, taken).well_filed(),
        after_resolution(state, id, approved).well_filed(),
        after_withdrawal(state, id).well_filed(),
{
}

/// What registering as `registrations` say leads to, where the identifiers
/// differ and none is pending: each request is accepted and filed with its
/// own channel, the hub takes in those that it is said to take, and what was
/// filed before stays.
proof fn lemma_register_all(state: AppStateView, registrations: Seq<Registration>)
    requires
        distinct_requests(registrations),
        forall|i: int|
            0 <= i < registrations.len() ==> !state.filed.dom().contains(
                #[trigger] registrations[i].request.id@,
            ),
    ensures
        all_accepted(state, registrations),
        register_all(state, registrations) == (AppStateView {
            filed: register_all(state, registrations).filed,
            announced: state.announced + taken_in(registrations),
            ..state
        }),
        forall|id: Seq<char>| #[trigger]
            register_all(state, registrations).filed.dom().contains(id) <==> (
            state.filed.dom().contains(id) || is_among(id, registrations)),
        forall|id: Seq<char>|
            state.filed.dom().contains(id) ==> #[trigger] register_all(state, registrations).filed[id]
                == state.filed[id],
        forall|i: int|
            0 <= i < registrations.len() ==> register_all(state, registrations).filed[#[trigger] registrations[i].request.id@]
                == registrations[i].filing(),
    decreases registrations.len(),
{
    if registrations.len() > 0 {
        let earlier = registrations.drop_last();
        let last = registrations.last();
        let n = earlier.len() as int;
        assert forall|i: int| 0 <= i < earlier.len() implies earlier[i] == registrations[i] by {}
        lemma_register_all(state, earlier);
        let before = register_all(state, earlier);
        assert(!is_among(last.request.id@, earlier)) by {
            if is_among(last.request.id@, earlier) {
                let i = choose|i: int|
                    0 <= i < earlier.len() && #[trigger] earlier[i].request.id@ == last.request.id@;
                assert(registrations[i].request.id@ == registrations[n].request.id@);
            }
        }
        assert(!state.filed.dom().contains(registrations[n].request.id@));
        assert(accepts(before, last.request));
        let after = register_all(state, registrations);
        assert(after.filed == before.filed.insert(last.request.id@, last.filing()));
        assert(after.announced =~= state.announced + taken_in(registrations));
        assert forall|id: Seq<char>| #[trigger]
            after.filed.dom().contains(id) <==> (state.filed.dom().contains(id) || is_among(
                id,
                registrations,
            )) by {
            if is_among(id, earlier) {
                let i = choose|i: int|
                    0 <= i < earlier.len() && #[trigger] earlier[i].request.id@ == id;
                assert(registrations[i].request.id@ == id);
            }
            if id == last.request.id@ {
                assert(registrations[n].request.id@ == id);
            }
            if is_among(id, registrations) {
                let i = choose|i: int|
                    0 <= i < registrations.len() && #[trigger] registrations[i].request.id@ == id;
                if i < n {
                    assert(earlier[i].request.id@ == id);
                }
            }
        }
        assert forall|i: int| 0 <= i < registrations.len() implies after.filed[#[trigger] registrations[i].request.id@]
            == registrations[i].filing() by {
            if i < n {
                assert(earlier[i].request.id@ == registrations[i].request.id@);
                assert(registrations[i].request.id@ != registrations[n].request.id@);
            }
        }
    } else {
        assert(state.announced + taken_in(registrations) =~= state.announced);
    }
}

/// What resolving as `verdicts` say leads to: each finds its request exactly
/// if all the identifiers were pending and none is decided twice; then each
/// decision was handed on, in order, on the channel filed for its request,
/// and what stays filed is what was filed under another identifier.
proof fn lemma_resolve_all(state: AppStateView, verdicts: Seq<Verdict>)
    ensures
        all_resolved(state, verdicts) <==> (distinct_verdicts(verdicts) && forall|k: int|
            0 <= k < verdicts.len() ==> state.filed.dom().contains(#[trigger] verdicts[k].id)),
        resolve_all(state, verdicts) == (AppStateView {
            filed: resolve_all(state, verdicts).filed,
            decided: resolve_all(state, verdicts).decided,
            ..state
        }),
        all_resolved(state, verdicts) ==> resolve_all(state, verdicts).decided == state.decided
            + decisions_of(verdicts, state.filed),
        forall|id: Seq<char>| #[trigger]
            resolve_all(state, verdicts).filed.dom().contains(id) <==> (
            state.filed.dom().contains(id) && !is_decided(id, verdicts)),
        forall|id: Seq<char>|
            resolve_all(state, verdicts).filed.dom().contains(id) ==> #[trigger] resolve_all(
                state,
                verdicts,
            ).filed[id] == state.filed[id],
    decreases verdicts.len(),
{
    if verdicts.len() > 0 {
        let first = verdicts.first();
        let rest = verdicts.drop_first();
        let next = after_resolution(state, first.id, first.approved);
        lemma_resolve_all(next, rest);
        assert forall|k: int| 0 <= k < rest.len() implies rest[k] == verdicts[k + 1] by {}
        assert forall|id: Seq<char>| is_decided(id, verdicts) <==> (id == first.id || is_decided(
            id,
            rest,
        )) by {
            if is_decided(id, verdicts) {
                let k = choose|k: int| 0 <= k < verdicts.len() && #[trigger] verdicts[k].id == id;
                if k > 0 {
                    assert(rest[k - 1].id == id);
                }
            }
            if is_decided(id, rest) {
                let k = choose|k: int| 0 <= k < rest.len() && #[trigger] rest[k].id == id;
                assert(verdicts[k + 1].id == id);
            }
            if id == first.id {
                assert(verdicts[0].id == id);
            }
        }
        let claim = distinct_verdicts(verdicts) && forall|k: int|
            0 <= k < verdicts.len() ==> state.filed.dom().contains(#[trigger] verdicts[k].id);
        if all_resolved(state, verdicts) {
            assert(distinct_verdicts(rest));
            assert forall|k: int| 0 <= k < rest.len() implies next.filed.dom().contains(
                #[trigger] rest[k].id,
            ) by {}
            assert forall|i: int, j: int| 0 <= i < j < verdicts.len() implies verdicts[i].id
                != verdicts[j].id by {
                if i == 0 {
                    assert(next.filed.dom().contains(rest[j - 1].id));
                } else {
                    assert(rest[i - 1].id != rest[j - 1].id);
                }
            }
            assert forall|k: int| 0 <= k < verdicts.len() implies state.filed.dom().contains(
                #[trigger] verdicts[k].id,
            ) by {
                if k > 0 {
                    assert(next.filed.dom().contains(rest[k - 1].id));
                }
            }
            assert(claim);
            let handed_first = Decision {
                id: first.id,
                channel: state.filed[first.id].channel,
                approved: first.approved,
            };
            assert(next.decided == state.decided.push(handed_first));
            assert forall|k: int| 0 <= k < rest.len() implies decisions_of(rest, next.filed)[k]
                == decisions_of(verdicts, state.filed)[k + 1] by {
                assert(next.filed.dom().contains(rest[k].id));
                assert(verdicts[k + 1].id != verdicts[0].id);
            }
            assert(state.decided.push(handed_first) + decisions_of(rest, next.filed)
                =~= state.decided + decisions_of(verdicts, state.filed));
        }
        if claim {
            assert(state.filed.dom().contains(verdicts[0].id));
            assert forall|i: int, j: int| 0 <= i < j < rest.len() implies rest[i].id
                != rest[j].id by {
                assert(verdicts[i + 1].id != verdicts[j + 1].id);
            }
            assert forall|k: int| 0 <= k < rest.len() implies next.filed.dom().contains(
                #[trigger] rest[k].id,
            ) by {
                assert(verdicts[k + 1].id != verdicts[0].id);
                assert(state.filed.dom().contains(verdicts[k + 1].id));
            }
            assert(all_resolved(state, verdicts));
        }
        let left = resolve_all(state, verdicts);
        assert(left == resolve_all(next, rest));
        assert forall|id: Seq<char>| #[trigger]
            left.filed.dom().contains(id) <==> (state.filed.dom().contains(id) && !is_decided(
                id,
                verdicts,
            )) by {
            assert(resolve_all(next, rest).filed.dom().contains(id) <==> (
            next.filed.dom().contains(id) && !is_decided(id, rest)));
        }
        assert forall|id: Seq<char>| left.filed.dom().contains(id) implies #[trigger] left.filed[id]
            == state.filed[id] by {
            assert(resolve_all(next, rest).filed.dom().contains(id));
            assert(resolve_all(next, rest).filed[id] == next.filed[id]);
        }
    } else {
        assert(state.decided + decisions_of(verdicts, state.filed) =~= state.decided);
    }
}

/// Requests with identifiers that differ from each other and from those
/// pending are all accepted and filed, each with its own channel, beside
/// what was filed before; the hub takes in, in their order, those that came
/// while somebody was subscribed. Resolving each of them once, in whatever
/// order, finds every one of them: for each, the decision on its request and
/// no other is recorded for the producer filed for it, and what is filed is
/// as it was before. After that none of them is found again.
pub proof fn law_every_request_is_resolved_once(
    state: AppStateView,
    registrations: Seq<Registration>,
    verdicts: Seq<Verdict>,
)
    requires
        distinct_requests(registrations),
        forall|i: int|
            0 <= i < registrations.len() ==> !state.filed.dom().contains(
                #[trigger] registrations[i].request.id@,
            ),
        decide_each_once(verdicts, registrations),
    ensures
        all_accepted(state, registrations),
        forall|id: Seq<char>| #[trigger]
            register_all(state, registrations).filed.dom().contains(id) <==> (
            state.filed.dom().contains(id) || is_among(id, registrations)),
        forall|id: Seq<char>|
            state.filed.dom().contains(id) ==> #[trigger] register_all(
                state,
                registrations,
            ).filed[id] == state.filed[id],
        forall|i: int|
            0 <= i < registrations.len() ==> register_all(state, registrations).filed[#[trigger] registrations[i].request.id@]
                == registrations[i].filing(),
        all_resolved(register_all(state, registrations), verdicts),
        resolve_all(register_all(state, registrations), verdicts) == (AppStateView {
            announced: state.announced + taken_in(registrations),
            decided: state.decided + decisions_of(verdicts, register_all(state, registrations).filed),
            ..state
        }),
        forall|k: int|
            0 <= k < verdicts.len() ==> !resolves(
                resolve_all(register_all(state, registrations), verdicts),
                #[trigger] verdicts[k].id,
            ),
{
    let filled = register_all(state, registrations);
    lemma_register_all(state, registrations);
    lemma_resolve_all(filled, verdicts);
    assert forall|k: int| 0 <= k < verdicts.len() implies filled.filed.dom().contains(
        #[trigger] verdicts[k].id,
    ) by {
        assert(is_among(verdicts[k].id, registrations));
    }
    let emptied = resolve_all(filled, verdicts);
    assert forall|id: Seq<char>|
        emptied.filed.dom().contains(id) <==> state.filed.dom().contains(id) by {
        if state.filed.dom().contains(id) && is_decided(id, verdicts) {
            let k = choose|k: int| 0 <= k < verdicts.len() && #[trigger] verdicts[k].id == id;
            assert(is_among(verdicts[k].id, registrations));
        }
        if is_among(id, registrations) {
            let i = choose|i: int| 0 <= i < registrations.len() && #[trigger] registrations[i].request.id@ == id;
            assert(is_decided(registrations[i].request.id@, verdicts));
        }
    }
    assert(emptied.filed =~= state.filed);
    assert forall|k: int| 0 <= k < verdicts.len() implies !resolves(
        emptied,
        #[trigger] verdicts[k].id,
    ) by {
        assert(is_among(verdicts[k].id, registrations));
    }
}

/// A snapshot lists as many requests as are pending, and these are finitely
/// many.
pub proof fn law_snapshot_counts_the_pending(
    listed: Seq<SamplingRequest>,
    pending: Map<Seq<char>, SamplingRequest>,
)
    requires
        is_snapshot(listed, pending),
    ensures
        pending.dom().finite(),
        pending.dom().len() == listed.len(),
{
    let ids = listed.map_values(|request: SamplingRequest| request.id@);
    assert forall|i: int, j: int| 0 <= i < ids.len() && 0 <= j < ids.len() && i != j implies ids[i]
        != ids[j] by {
        if i < j {
            assert(listed[i].id@ != listed[j].id@);
        } else {
            assert(listed[j].id@ != listed[i].id@);
        }
    }
    ids.unique_seq_to_set();
    assert(ids.to_set() =~= pending.dom()) by {
        assert forall|id: Seq<char>| ids.to_set().contains(id) <==> pending.dom().contains(id) by {
            if ids.to_set().contains(id) {
                let i = choose|i: int| 0 <= i < ids.len() && ids[i] == id;
                assert(listed[i].id@ == id);
            }
            if pending.dom().contains(id) {
                let i = choose|i: int| 0 <= i < listed.len() && #[trigger] listed[i].id@ == id;
                assert(ids[i] == id);
            }
        }
    }
}

} // verus!
