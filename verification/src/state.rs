//! The registry of pending requests and the state shared by all handlers.

use std::collections::HashMap;
use std::path::PathBuf;
use vstd::prelude::*;
use vstd::string::StringExecFns;
use crate::channel::{
    decision_channel, handed, missed, open_hub, producer_channel, publish, receiver_hub,
    send_decision, sender_hub, subscribe, waiter_channel,
};
use crate::routes::sampling::SamplingRequest;

verus! {

/// One pending request together with the producing half of its decision
/// channel.
#[derive(Debug)]
pub struct PendingEntry {
    pub request: SamplingRequest,
    pub tx: tokio::sync::oneshot::Sender<bool>,
}

/// Whether some entry of `entries` carries the identifier `id`.
spec fn holds(entries: Seq<PendingEntry>, id: Seq<char>) -> bool {
    exists|i: int| 0 <= i < entries.len() && #[trigger] entries[i].request.id@ == id
}

/// The position of an entry of `entries` that carries `id`, if there is one.
spec fn slot(entries: Seq<PendingEntry>, id: Seq<char>) -> int {
    choose|i: int| 0 <= i < entries.len() && #[trigger] entries[i].request.id@ == id
}

/// No identifier occurs in two entries.
spec fn distinct_ids(entries: Seq<PendingEntry>) -> bool {
    forall|i: int, j: int|
        0 <= i < j < entries.len() ==> #[trigger] entries[i].request.id@
            != #[trigger] entries[j].request.id@
}

/// The mapping from identifier to entry that a sequence of entries stands for.
spec fn as_map(entries: Seq<PendingEntry>) -> Map<Seq<char>, PendingEntry> {
    Map::new(|id: Seq<char>| holds(entries, id), |id: Seq<char>| entries[slot(entries, id)])
}

/// The requests of a mapping of entries, each under its identifier.
pub open spec fn requests_of(entries: Map<Seq<char>, PendingEntry>) -> Map<
    Seq<char>,
    SamplingRequest,
> {
    entries.map_values(|entry: PendingEntry| entry.request)
}

/// `listed` holds every request of `pending` once and nothing else.
pub open spec fn is_snapshot(
    listed: Seq<SamplingRequest>,
    pending: Map<Seq<char>, SamplingRequest>,
) -> bool {
    &&& forall|i: int|
        0 <= i < listed.len() ==> pending.dom().contains(#[trigger] listed[i].id@)
            && pending[listed[i].id@] == listed[i]
    &&& forall|i: int, j: int|
        0 <= i < j < listed.len() ==> #[trigger] listed[i].id@ != #[trigger] listed[j].id@
    &&& forall|id: Seq<char>|
        pending.dom().contains(id) ==> exists|i: int|
            0 <= i < listed.len() && #[trigger] listed[i].id@ == id
}

/// The correlation store: every pending request under its identifier, with
/// the producer of its decision channel.
pub struct PendingSamplingRequests {
    entries: Vec<PendingEntry>,
}

impl View for PendingSamplingRequests {
    type V = Map<Seq<char>, PendingEntry>;

    closed spec fn view(&self) -> Map<Seq<char>, PendingEntry> {
        as_map(self.entries@)
    }
}

impl PendingSamplingRequests {
    /// The store's invariant: no identifier is filed twice.
    pub closed spec fn wf(&self) -> bool {
        distinct_ids(self.entries@)
    }

    /// An empty store.
    pub fn new() -> (store: Self)
        ensures
            store.wf(),
            store@ == Map::<Seq<char>, PendingEntry>::empty(),
    {
        let store = PendingSamplingRequests { entries: Vec::new() };
        assert(store@ =~= Map::<Seq<char>, PendingEntry>::empty());
        store
    }

    fn find(&self, id: &String) -> (found: Option<usize>)
        ensures
            match found {
                Some(i) => i < self.entries@.len() && self.entries@[i as int].request.id@ == id@,
                None => !holds(self.entries@, id@),
            },
    {
        let mut i: usize = 0;
        while i < self.entries.len()
            invariant
                i <= self.entries@.len(),
                forall|k: int| 0 <= k < i ==> self.entries@[k].request.id@ != id@,
            decreases self.entries@.len() - i,
        {
            if self.entries[i].request.id == *id {
                return Some(i);
            }
            i += 1;
        }
        None
    }

    /// Whether a request with this identifier is pending.
    pub fn contains(&self, id: &str) -> (present: bool)
        ensures
            present == self@.dom().contains(id@),
    {
        let key = id.to_owned();
        self.find(&key).is_some()
    }

    /// Files `entry` under the identifier of its request, unless a request
    /// with that identifier is pending: then the entry comes back and the
    /// store stays as it was.
    pub fn insert(&mut self, entry: PendingEntry) -> (refused: Option<PendingEntry>)
        requires
            old(self).wf(),
        ensures
            final(self).wf(),
            old(self)@.dom().contains(entry.request.id@) ==> refused == Some(entry)
                && *final(self) == *old(self),
            !old(self)@.dom().contains(entry.request.id@) ==> refused.is_none()
                && final(self)@ == old(self)@.insert(entry.request.id@, entry),
    {
        if self.find(&entry.request.id).is_some() {
            return Some(entry);
        }
        let ghost before = self.entries@;
        let ghost id = entry.request.id@;
        self.entries.push(entry);
        proof {
            let after = self.entries@;
            assert(after[before.len() as int] == entry);
            assert forall|k: Seq<char>| holds(after, k) <==> (k == id || holds(before, k)) by {
                if holds(before, k) {
                    let i = slot(before, k);
                    assert(after[i].request.id@ == k);
                }
                if k == id {
                    assert(after[before.len() as int].request.id@ == k);
                }
            }
            assert forall|k: Seq<char>| holds(after, k) implies after[slot(after, k)] == if k
                == id {
                entry
            } else {
                before[slot(before, k)]
            } by {
                let i = slot(after, k);
                if k != id {
                    let j = slot(before, k);
                    assert(after[j].request.id@ == k);
                    assert(i == j);
                }
            }
            assert(as_map(after) =~= as_map(before).insert(id, entry));
        }
        None
    }

    /// Takes the entry filed under `id` out of the store, if there is one.
    pub fn take(&mut self, id: &str) -> (taken: Option<PendingEntry>)
        requires
            old(self).wf(),
        ensures
            final(self).wf(),
            old(self)@.dom().contains(id@) ==> taken == Some(old(self)@[id@])
                && final(self)@ == old(self)@.remove(id@),
            !old(self)@.dom().contains(id@) ==> taken.is_none() && *final(self) == *old(self),
    {
        let key = id.to_owned();
        match self.find(&key) {
            None => None,
            Some(at) => {
                let ghost before = self.entries@;
                let entry = self.entries.remove(at);
                proof {
                    let after = self.entries@;
                    let p = at as int;
                    assert(before[p].request.id@ == id@);
                    assert(slot(before, id@) == p);
                    assert forall|i: int| 0 <= i < after.len() implies after[i] == before[if i
                        < p {
                        i
                    } else {
                        i + 1
                    }] by {}
                    assert forall|k: Seq<char>| holds(after, k) <==> (k != id@ && holds(
                        before,
                        k,
                    )) by {
                        if holds(after, k) {
                            let i = slot(after, k);
                            let j = if i < p {
                                i
                            } else {
                                i + 1
                            };
                            assert(before[j].request.id@ == k);
                        }
                        if k != id@ && holds(before, k) {
                            let j = slot(before, k);
                            let i = if j < p {
                                j
                            } else {
                                j - 1
                            };
                            assert(after[i].request.id@ == k);
                        }
                    }
                    assert forall|k: Seq<char>| holds(after, k) implies after[slot(after, k)]
                        == before[slot(before, k)] by {
                        let i = slot(after, k);
                        let j = if i < p {
                            i
                        } else {
                            i + 1
                        };
                        assert(before[j].request.id@ == k);
                        assert(slot(before, k) == j);
                    }
                    assert(as_map(after) =~= as_map(before).remove(id@));
                }
                Some(entry)
            },
        }
    }

    /// A copy of every pending request.
    pub fn requests(&self) -> (listed: Vec<SamplingRequest>)
        requires
            self.wf(),
        ensures
            is_snapshot(listed@, requests_of(self@)),
    {
        let mut listed: Vec<SamplingRequest> = Vec::new();
        let mut i: usize = 0;
        while i < self.entries.len()
            invariant
                i <= self.entries@.len(),
                listed@.len() == i,
                forall|k: int| 0 <= k < i ==> listed@[k] == self.entries@[k].request,
            decreases self.entries@.len() - i,
        {
            listed.push(self.entries[i].request.clone());
            i += 1;
        }
        proof {
            let entries = self.entries@;
            let pending = requests_of(self@);
            assert forall|k: int| 0 <= k < listed@.len() implies pending.dom().contains(
                #[trigger] listed@[k].id@,
            ) && pending[listed@[k].id@] == listed@[k] by {
                assert(entries[k].request.id@ == listed@[k].id@);
                assert(slot(entries, listed@[k].id@) == k);
            }
            assert forall|id: Seq<char>| pending.dom().contains(id) implies exists|k: int|
                0 <= k < listed@.len() && #[trigger] listed@[k].id@ == id by {
                let k = slot(entries, id);
                assert(listed@[k].id@ == id);
            }
        }
        listed
    }
}

/// `std::path::PathBuf`, the place of a recipe file.
#[verifier::external_type_specification]
#[verifier::external_body]
pub struct ExPathBuf(PathBuf);

/// Why the registry refused an operation.
#[derive(Debug)]
pub enum RegistryError {
    /// A request with this identifier is already pending.
    DuplicateId(String),
    /// No request with this identifier is pending.
    NotFound(String),
}

impl RegistryError {
    /// The identifier that the operation was about.
    pub fn into_id(self) -> (id: String)
        ensures
            id == match self {
                RegistryError::DuplicateId(id) => id,
                RegistryError::NotFound(id) => id,
            },
    {
        match self {
            RegistryError::DuplicateId(id) => id,
            RegistryError::NotFound(id) => id,
        }
    }

    /// The text of the error, as shown to a caller.
    pub fn message(&self) -> (text: String)
        ensures
            text@ == match *self {
                RegistryError::DuplicateId(id) => "Sampling request already pending: "@ + id@,
                RegistryError::NotFound(id) => "Sampling request not found: "@ + id@,
            },
    {
        match self {
            RegistryError::DuplicateId(id) => {
                "Sampling request already pending: ".to_owned().concat(id.as_str())
            },
            RegistryError::NotFound(id) => {
                "Sampling request not found: ".to_owned().concat(id.as_str())
            },
        }
    }
}

/// The capacity that the hub is opened with. The hub keeps at least so many
/// notifications for a subscriber that has fallen behind (it rounds the
/// number up to a power of two); older ones are dropped for that subscriber.
pub const HUB_CAPACITY: usize = 100;

/// What is filed for one pending request: the request, and the decision
/// channel whose producer is kept for it.
pub struct Filing {
    pub request: SamplingRequest,
    pub channel: int,
}

/// A decision that was handed to a producer: for which request, on which
/// decision channel, and what it says.
pub struct Decision {
    pub id: Seq<char>,
    pub channel: int,
    pub approved: bool,
}

/// What the shared state stands for.
pub struct AppStateView {
    /// What is filed for each pending request, under its identifier.
    pub filed: Map<Seq<char>, Filing>,
    /// The hub on which requests are announced.
    pub hub: int,
    /// Every request that the hub took in, in that order: those that were
    /// registered while somebody was subscribed.
    pub announced: Seq<SamplingRequest>,
    /// Every decision that the library says it handed to a producer, in that
    /// order. This is the library's own record: the call that hands a
    /// decision on leaves no trace that a contract could speak of.
    pub decided: Seq<Decision>,
    /// The sessions whose recipe run has been recorded.
    pub recipe_sessions: Set<Seq<char>>,
    /// The recipe files, each under its hash.
    pub recipe_files: Map<String, PathBuf>,
}

impl AppStateView {
    /// The pending requests, each under its identifier.
    pub open spec fn pending(self) -> Map<Seq<char>, SamplingRequest> {
        self.filed.map_values(|filing: Filing| filing.request)
    }

    /// Each filing is kept under the identifier of its own request.
    pub open spec fn well_filed(self) -> bool {
        forall|id: Seq<char>|
            self.filed.dom().contains(id) ==> (#[trigger] self.filed[id]).request.id@ == id
    }
}

/// The state of a server on the hub `hub` in which nothing has happened yet.
pub open spec fn initial(hub: int) -> AppStateView {
    AppStateView {
        filed: Map::empty(),
        hub,
        announced: Seq::empty(),
        decided: Seq::empty(),
        recipe_sessions: Set::empty(),
        recipe_files: Map::empty(),
    }
}

/// Whether `request` can be registered: its identifier is not taken.
pub open spec fn accepts(state: AppStateView, request: SamplingRequest) -> bool {
    !state.filed.dom().contains(request.id@)
}

/// Whether `id` can be resolved: a request is filed under it.
pub open spec fn resolves(state: AppStateView, id: Seq<char>) -> bool {
    state.filed.dom().contains(id)
}

/// The state after an attempt to register `request` with a producer on
/// `channel`. An accepted request is filed with that channel and handed to
/// the hub, which takes it in where somebody is subscribed: `taken` says
/// whether it did. A refused request changes nothing.
pub open spec fn after_registration(
    state: AppStateView,
    request: SamplingRequest,
    channel: int,
    taken: bool,
) -> AppStateView {
    if accepts(state, request) {
        AppStateView {
            filed: state.filed.insert(request.id@, Filing { request, channel }),
            announced: if taken {
                state.announced.push(request)
            } else {
                state.announced
            },
            ..state
        }
    } else {
        state
    }
}

/// `after` is `before` after the registration of `request` with a producer
/// on `channel`, whether or not somebody was subscribed to the hub.
pub open spec fn registers(
    before: AppStateView,
    after: AppStateView,
    request: SamplingRequest,
    channel: int,
) -> bool {
    exists|taken: bool| after == #[trigger] after_registration(before, request, channel, taken)
}

/// The state after an attempt to resolve `id` with `approved`. A request
/// that was pending is pending no more, and the producer filed for it was
/// handed the decision; an unknown identifier changes nothing.
pub open spec fn after_resolution(state: AppStateView, id: Seq<char>, approved: bool) -> AppStateView {
    if resolves(state, id) {
        AppStateView {
            filed: state.filed.remove(id),
            decided: state.decided.push(
                Decision { id, channel: state.filed[id].channel, approved },
            ),
            ..state
        }
    } else {
        state
    }
}

/// The state after an attempt to withdraw `id`. A request that was pending
/// is pending no more and no decision was handed to its producer.
pub open spec fn after_withdrawal(state: AppStateView, id: Seq<char>) -> AppStateView {
    AppStateView { filed: state.filed.remove(id), ..state }
}

/// What is filed, as the state's view has it, for the entries of the store.
spec fn filings_of(entries: Map<Seq<char>, PendingEntry>) -> Map<Seq<char>, Filing> {
    entries.map_values(
        |entry: PendingEntry| Filing { request: entry.request, channel: producer_channel(entry.tx) },
    )
}

/// No session is recorded twice.
spec fn distinct_sessions(sessions: Seq<String>) -> bool {
    forall|i: int, j: int|
        0 <= i < j < sessions.len() ==> #[trigger] sessions[i]@ != #[trigger] sessions[j]@
}

/// The sessions that a record holds.
spec fn sessions_of(sessions: Seq<String>) -> Set<Seq<char>> {
    Set::new(
        |id: Seq<char>| exists|i: int| 0 <= i < sessions.len() && #[trigger] sessions[i]@ == id,
    )
}

/// The state shared by every handler: the registry of pending requests, the
/// hub that announces them, and the record of recipe runs.
///
/// The state is changed by one caller at a time. A server shares it behind a
/// lock that it holds for one operation and never while it waits.
///
/// Beside what is stored, the state keeps one record that exists for the
/// proofs alone: of every decision handed to a producer. The record is the
/// library's own claim. Only `deliver` hands a decision to a producer, and
/// it writes the record beside the call; nothing in the call's contract
/// forces the two to agree, so that they do rests on reading `deliver`. What
/// the hub took in is the hub's own and is stated by the calls on it.
pub struct AppState {
    recipe_file_hash_map: HashMap<String, PathBuf>,
    recipe_session_tracker: Vec<String>,
    pending_sampling_requests: PendingSamplingRequests,
    sampling_request_tx: tokio::sync::broadcast::Sender<SamplingRequest>,
    decided: Ghost<Seq<Decision>>,
}

impl View for AppState {
    type V = AppStateView;

    closed spec fn view(&self) -> AppStateView {
        AppStateView {
            filed: filings_of(self.pending_sampling_requests@),
            hub: sender_hub(self.sampling_request_tx),
            announced: handed(self.sampling_request_tx),
            decided: self.decided@,
            recipe_sessions: sessions_of(self.recipe_session_tracker@),
            recipe_files: self.recipe_file_hash_map@,
        }
    }
}

impl AppState {
    /// The state's invariant: that of the registry, and no session recorded
    /// twice.
    pub closed spec fn wf(&self) -> bool {
        &&& self.pending_sampling_requests.wf()
        &&& distinct_sessions(self.recipe_session_tracker@)
    }

    /// A well-formed state keeps each filing under the identifier of its own
    /// request.
    pub proof fn lemma_filed_under_own_id(&self)
        requires
            self.wf(),
        ensures
            self@.well_filed(),
    {
        let entries = self.pending_sampling_requests@;
        assert forall|id: Seq<char>| self@.filed.dom().contains(id) implies (
        #[trigger] self@.filed[id]).request.id@ == id by {
            assert(entries.dom().contains(id));
            assert(self@.filed[id].request == entries[id].request);
        }
    }

    /// A state in which nothing has happened yet, on a hub of its own.
    pub fn new() -> (state: Self)
        ensures
            state.wf(),
            state@ == initial(state@.hub),
    {
        let state = AppState {
            recipe_file_hash_map: HashMap::new(),
            recipe_session_tracker: Vec::new(),
            pending_sampling_requests: PendingSamplingRequests::new(),
            sampling_request_tx: open_hub(HUB_CAPACITY),
            decided: Ghost(Seq::empty()),
        };
        assert(state@.filed =~= Map::<Seq<char>, Filing>::empty());
        assert(state@.recipe_sessions =~= Set::<Seq<char>>::empty());
        state
    }

    /// The recipe files, each under its hash.
    pub fn recipe_file_hash_map(&self) -> (files: &HashMap<String, PathBuf>)
        ensures
            files@ == self@.recipe_files,
    {
        &self.recipe_file_hash_map
    }

    /// Replaces the recipe files.
    pub fn set_recipe_file_hash_map(&mut self, hash_map: HashMap<String, PathBuf>)
        requires
            old(self).wf(),
        ensures
            final(self).wf(),
            final(self)@ == (AppStateView { recipe_files: hash_map@, ..old(self)@ }),
    {
        self.recipe_file_hash_map = hash_map;
    }

    /// Records that the recipe of `session_id` has run, and says whether this
    /// was the first time.
    pub fn mark_recipe_run_if_absent(&mut self, session_id: &str) -> (first: bool)
        requires
            old(self).wf(),
        ensures
            final(self).wf(),
            first == !old(self)@.recipe_sessions.contains(session_id@),
            final(self)@ == (AppStateView {
                recipe_sessions: old(self)@.recipe_sessions.insert(session_id@),
                ..old(self)@
            }),
    {
        let key = session_id.to_owned();
        let ghost before = self.recipe_session_tracker@;
        let mut i: usize = 0;
        while i < self.recipe_session_tracker.len()
            invariant
                i <= self.recipe_session_tracker@.len(),
                *self == *old(self),
                old(self).wf(),
                self.recipe_session_tracker@ == before,
                key@ == session_id@,
                forall|k: int| 0 <= k < i ==> before[k]@ != key@,
            decreases self.recipe_session_tracker@.len() - i,
        {
            if self.recipe_session_tracker[i] == key {
                assert(before[i as int]@ == session_id@);
                assert(self@.recipe_sessions =~= old(self)@.recipe_sessions.insert(session_id@));
                return false;
            }
            i += 1;
        }
        self.recipe_session_tracker.push(key);
        proof {
            let after = self.recipe_session_tracker@;
            assert(after[before.len() as int]@ == session_id@);
            assert forall|id: Seq<char>|
                sessions_of(after).contains(id) <==> sessions_of(before).insert(
                    session_id@,
                ).contains(id) by {
                if sessions_of(before).contains(id) {
                    let k = choose|k: int| 0 <= k < before.len() && #[trigger] before[k]@ == id;
                    assert(after[k]@ == id);
                }
            }
            assert(self@.recipe_sessions =~= old(self)@.recipe_sessions.insert(session_id@));
        }
        true
    }

    /// Hands `approved` to the producer of `entry` and records the decision.
    /// The record is written here, beside the call, and is not forced by it.
    fn deliver(&mut self, entry: PendingEntry, approved: bool)
        requires
            old(self).wf(),
        ensures
            final(self).wf(),
            final(self)@ == (AppStateView {
                decided: old(self)@.decided.push(
                    Decision {
                        id: entry.request.id@,
                        channel: producer_channel(entry.tx),
                        approved,
                    },
                ),
                ..old(self)@
            }),
    {
        self.decided = Ghost(
            self.decided@.push(
                Decision { id: entry.request.id@, channel: producer_channel(entry.tx), approved },
            ),
        );
        let _ = send_decision(entry.tx, approved);
    }

    /// Registers `request`: files it with the producer of a fresh decision
    /// channel, hands it to the hub, and returns the waiting half of that
    /// channel. The hub takes the request in where somebody is subscribed. A
    /// request whose identifier is already pending is refused and changes
    /// nothing.
    pub fn add_sampling_request(&mut self, request: SamplingRequest) -> (outcome: Result<
        tokio::sync::oneshot::Receiver<bool>,
        RegistryError,
    >)
        requires
            old(self).wf(),
        ensures
            final(self).wf(),
            outcome is Ok <==> accepts(old(self)@, request),
            outcome matches Ok(waiter) ==> registers(
                old(self)@,
                final(self)@,
                request,
                waiter_channel(waiter),
            ),
            outcome matches Err(error) ==> {
                &&& error == RegistryError::DuplicateId(request.id)
                &&& *final(self) == *old(self)
            },
    {
        if self.pending_sampling_requests.contains(request.id.as_str()) {
            return Err(RegistryError::DuplicateId(request.id));
        }
        let announced = request.clone();
        let (tx, rx) = decision_channel();
        let ghost filing = Filing { request, channel: producer_channel(tx) };
        let _ = self.pending_sampling_requests.insert(PendingEntry { request, tx });
        assert(self@.filed =~= old(self)@.filed.insert(request.id@, filing));
        let sent = publish(&mut self.sampling_request_tx, announced);
        assert(self@ == after_registration(old(self)@, request, filing.channel, sent is Ok));
        Ok(rx)
    }

    /// Resolves the request filed under `request_id`: takes it out of the
    /// registry and hands `approved` to the producer filed for it. An
    /// identifier that is not pending is refused and changes nothing.
    pub fn respond_to_sampling_request(&mut self, request_id: &str, approved: bool) -> (outcome:
        Result<(), RegistryError>)
        requires
            old(self).wf(),
        ensures
            final(self).wf(),
            final(self)@ == after_resolution(old(self)@, request_id@, approved),
            outcome is Ok <==> resolves(old(self)@, request_id@),
            outcome matches Err(error) ==> {
                &&& error matches RegistryError::NotFound(id)
                &&& id@ == request_id@
                &&& *final(self) == *old(self)
            },
    {
        match self.pending_sampling_requests.take(request_id) {
            Some(entry) => {
                assert(self@.filed =~= old(self)@.filed.remove(request_id@));
                self.deliver(entry, approved);
                Ok(())
            },
            None => Err(RegistryError::NotFound(request_id.to_owned())),
        }
    }

    /// Takes the request filed under `request_id` out of the registry and
    /// sends no decision. The producer filed for it is dropped, so that its
    /// waiter finds the channel closed. An identifier that is not pending is
    /// refused and changes nothing.
    pub fn withdraw_sampling_request(&mut self, request_id: &str) -> (outcome: Result<
        SamplingRequest,
        RegistryError,
    >)
        requires
            old(self).wf(),
        ensures
            final(self).wf(),
            final(self)@ == after_withdrawal(old(self)@, request_id@),
            outcome is Ok <==> resolves(old(self)@, request_id@),
            outcome matches Ok(request) ==> request == old(self)@.filed[request_id@].request,
            outcome matches Err(error) ==> {
                &&& error matches RegistryError::NotFound(id)
                &&& id@ == request_id@
                &&& *final(self) == *old(self)
            },
    {
        match self.pending_sampling_requests.take(request_id) {
            Some(entry) => {
                assert(self@.filed =~= old(self)@.filed.remove(request_id@));
                Ok(entry.request)
            },
            None => {
                assert(self@.filed =~= old(self)@.filed.remove(request_id@));
                Err(RegistryError::NotFound(request_id.to_owned()))
            },
        }
    }

    /// A copy of every pending request, in no particular order.
    pub fn get_pending_sampling_requests(&self) -> (listed: Vec<SamplingRequest>)
        requires
            self.wf(),
        ensures
            is_snapshot(listed@, self@.pending()),
    {
        assert(requests_of(self.pending_sampling_requests@) =~= self@.pending());
        self.pending_sampling_requests.requests()
    }

    /// A new receiver on this state's hub. It is told of the requests that
    /// the hub takes in from now on, and of none that it took in before.
    pub fn subscribe_to_sampling_requests(&self) -> (receiver: tokio::sync::broadcast::Receiver<
        SamplingRequest,
    >)
        ensures
            receiver_hub(receiver) == self@.hub,
            missed(receiver) == self@.announced.len(),
    {
        subscribe(&self.sampling_request_tx)
    }
}

} // verus!
