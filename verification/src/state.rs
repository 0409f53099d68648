//! State hand-off between agents: the bytes that one agent stores and
//! another fetches through a `StateRef`, checked by a BLAKE3 checksum and
//! dropped once expired.
use crate::bench::{joined, path_join};
use crate::platform::{blake3_digest, blake3_hash, hex_encode, hex_lower, new_id, now_micros, uuid_string, uuid_text};
use crate::protocol::{
    AgentId, Checksum, StateFormat, StateId, StateRef, StateTransport, Timestamp,
};
use crate::text::push_str;
use std::collections::HashMap;
use vstd::prelude::*;
use vstd::std_specs::hash::spec_keys_iter;
use vstd::std_specs::iter::IteratorSpec;

verus! {

broadcast use vstd::std_specs::hash::group_hash_axioms;

#[verifier::external_type_specification]
#[verifier::external_body]
pub struct ExIoError(std::io::Error);

/// What an agent says about a state it stores. `ttl` is the time to live in
/// microseconds; `None` keeps the state until it is deleted.
#[derive(Debug, Clone)]
pub struct StateMeta {
    pub producer: AgentId,
    pub format: StateFormat,
    pub shape: Option<Vec<usize>>,
    pub ttl: Option<u64>,
}

/// Why a state could not be fetched or changed.
#[derive(Debug)]
pub enum StateError {
    /// No state is stored under the id.
    NotFound(StateId),
    /// The stored bytes do not match the handle's checksum.
    ChecksumMismatch(StateId),
    /// Reading or writing the backing file failed.
    Io(std::io::Error),
}

/// `format!("{}", error)` for an I/O error: the text that its `Display`
/// prints. std documents no particular text, so nothing is stated of it.
#[verifier::external_body]
pub(crate) fn io_error_text(error: &std::io::Error) -> (text: String) {
    format!("{}", error)
}

/// The text shown for a state error; for an I/O error, the part before the
/// error's own text.
pub open spec fn state_error_text(e: StateError) -> Seq<char> {
    match e {
        StateError::NotFound(id) => "state not found: "@ + uuid_text(id),
        StateError::ChecksumMismatch(id) => "checksum mismatch for state: "@ + uuid_text(id),
        StateError::Io(_) => "state io error: "@,
    }
}

impl StateError {
    /// The error's message: the state's id in hyphenated form, or the I/O
    /// error's own text after `state io error: `.
    pub fn message(&self) -> (m: String)
        ensures
            !(self is Io) ==> m@ == state_error_text(*self),
            self is Io ==> state_error_text(*self).is_prefix_of(m@),
    {
        match self {
            StateError::NotFound(id) => {
                let mut m = String::from_str("state not found: ");
                let text = uuid_string(*id);
                push_str(&mut m, text.as_str());
                m
            },
            StateError::ChecksumMismatch(id) => {
                let mut m = String::from_str("checksum mismatch for state: ");
                let text = uuid_string(*id);
                push_str(&mut m, text.as_str());
                m
            },
            StateError::Io(error) => {
                let mut m = String::from_str("state io error: ");
                let ghost prefix = m@;
                let text = io_error_text(error);
                push_str(&mut m, text.as_str());
                assert(m@.subrange(0, prefix.len() as int) =~= prefix);
                m
            },
        }
    }
}

/// The checksum text of a byte string: BLAKE3, in lower-case hex.
pub open spec fn checksum_text(bytes: Seq<u8>) -> Seq<char> {
    hex_lower(blake3_digest(bytes))
}

/// The BLAKE3 checksum of some bytes, in lower-case hex.
pub fn checksum_of(bytes: &[u8]) -> (c: Checksum)
    ensures
        c.algorithm@ == "blake3"@,
        c.value@ == checksum_text(bytes@),
{
    let digest = blake3_hash(bytes);
    let value = hex_encode(digest.as_slice());
    Checksum { algorithm: String::from_str("blake3"), value }
}

/// The last instant a timestamp can hold, in microseconds since the Unix
/// epoch: 262142-12-31T23:59:59.999999 UTC, where chrono's calendar ends.
pub const MAX_TIMESTAMP_MICROS: i64 = 8_210_266_876_799_999_999i64;

/// When a state stored at `created_at` with time to live `ttl` expires:
/// never without a ttl, and never when the instant is past what a
/// timestamp can hold.
pub open spec fn expiry(created_at: Timestamp, ttl: Option<u64>) -> Option<Timestamp> {
    match ttl {
        Some(t) => if created_at + t <= MAX_TIMESTAMP_MICROS {
            Some((created_at + t) as i64)
        } else {
            None
        },
        None => None,
    }
}

/// When a state stored at `created_at` with time to live `ttl` expires.
pub fn expiry_of(created_at: Timestamp, ttl: Option<u64>) -> (r: Option<Timestamp>)
    ensures
        r == expiry(created_at, ttl),
{
    match ttl {
        Some(t) => {
            let sum: i128 = created_at as i128 + t as i128;
            if sum <= MAX_TIMESTAMP_MICROS as i128 {
                Some(sum as i64)
            } else {
                None
            }
        },
        None => None,
    }
}

/// The handle for `bytes` stored under `state_id` at `created_at`, as the
/// given transport keeps it.
pub open spec fn state_ref_spec(
    r: StateRef,
    state_id: StateId,
    created_at: Timestamp,
    bytes: Seq<u8>,
    meta: StateMeta,
    transport: StateTransport,
) -> bool {
    &&& r.state_id == state_id
    &&& r.producer.0@ == meta.producer.0@
    &&& r.format == meta.format
    &&& crate::protocol::same_shape(r.shape, meta.shape)
    &&& r.byte_len == bytes.len()
    &&& r.transport == transport
    &&& r.checksum.algorithm@ == "blake3"@
    &&& r.checksum.value@ == checksum_text(bytes)
    &&& r.created_at == created_at
    &&& r.expires_at == expiry(created_at, meta.ttl)
}

/// Builds the handle for `bytes` stored under `state_id` at `created_at`.
pub fn make_state_ref(
    state_id: StateId,
    created_at: Timestamp,
    bytes: &[u8],
    meta: StateMeta,
    transport: StateTransport,
) -> (r: StateRef)
    ensures
        state_ref_spec(r, state_id, created_at, bytes@, meta, transport),
{
    let checksum = checksum_of(bytes);
    let expires_at = expiry_of(created_at, meta.ttl);
    StateRef {
        state_id,
        producer: meta.producer,
        format: meta.format,
        shape: meta.shape,
        byte_len: bytes.len() as u64,
        transport,
        checksum,
        created_at,
        expires_at,
    }
}

/// The outcome of checking bytes against a handle.
pub open spec fn checksum_matches(bytes: Seq<u8>, r: StateRef) -> bool {
    checksum_text(bytes) == r.checksum.value@
}

/// Checks fetched bytes against the handle's checksum.
pub fn verify_checksum(bytes: &[u8], state_ref: &StateRef) -> (r: Result<(), StateError>)
    ensures
        r is Ok <==> checksum_matches(bytes@, *state_ref),
        r matches Err(e) ==> e matches StateError::ChecksumMismatch(id) && id
            == state_ref.state_id,
{
    let actual = checksum_of(bytes);
    let a = crate::text::chars_of(actual.value.as_str());
    let b = crate::text::chars_of(state_ref.checksum.value.as_str());
    if crate::protocol::chars_equal(&a, &b) {
        Ok(())
    } else {
        Err(StateError::ChecksumMismatch(state_ref.state_id))
    }
}

// ---------------------------------------------------------------------------
// The index of stored states
// ---------------------------------------------------------------------------
/// A stored state: where its bytes are (`payload`) and its handle.
pub struct IndexEntry<P> {
    pub payload: P,
    pub state_ref: StateRef,
}

/// Whether a handle's expiry has been reached at `now`.
pub open spec fn is_expired(r: StateRef, now: Timestamp) -> bool {
    r.expires_at matches Some(t) && t <= now
}

/// Whether a handle's expiry has been reached at `now`.
pub fn is_expired_exec(r: &StateRef, now: Timestamp) -> (b: bool)
    ensures
        b == is_expired(*r, now),
{
    match r.expires_at {
        Some(t) => t <= now,
        None => false,
    }
}

/// The ids of the entries that have expired at `now`.
pub open spec fn expired_in<P>(m: Map<StateId, IndexEntry<P>>, now: Timestamp) -> Set<StateId> {
    m.dom().filter(|id: StateId| is_expired(m[id].state_ref, now))
}

/// The stored states, by id.
pub struct StateIndex<P> {
    entries: HashMap<StateId, IndexEntry<P>>,
}

impl<P> StateIndex<P> {
    /// The stored entries by id.
    pub closed spec fn map(&self) -> Map<StateId, IndexEntry<P>> {
        self.entries@
    }

    /// Each entry is stored under the id of its handle.
    pub open spec fn wf(&self) -> bool {
        forall|id: StateId| #[trigger]
            self.map().contains_key(id) ==> self.map()[id].state_ref.state_id == id
    }

    /// The entry stored under `id`.
    pub open spec fn at(&self, id: StateId) -> Option<IndexEntry<P>> {
        if self.map().contains_key(id) {
            Some(self.map()[id])
        } else {
            None
        }
    }

    /// An empty index.
    pub fn new() -> (s: Self)
        ensures
            s.wf(),
            forall|id: StateId| s.at(id) is None,
            s.map().len() == 0,
    {
        let s = StateIndex { entries: HashMap::new() };
        assert(s.map() =~= Map::<StateId, IndexEntry<P>>::empty());
        s
    }

    /// How many states are stored.
    pub fn len(&self) -> (n: usize)
        ensures
            n == self.map().len(),
    {
        self.entries.len()
    }

    /// The entry stored under `id`.
    pub fn find(&self, id: StateId) -> (r: Option<&IndexEntry<P>>)
        ensures
            match r {
                Some(e) => self.at(id) == Some(*e),
                None => self.at(id) is None,
            },
    {
        self.entries.get(&id)
    }

    /// Drops the entry under `id`, if any, and returns it.
    pub fn remove(&mut self, id: StateId) -> (r: Option<IndexEntry<P>>)
        requires
            old(self).wf(),
        ensures
            final(self).wf(),
            r == old(self).at(id),
            final(self).at(id) is None,
            final(self).map() == old(self).map().remove(id),
            forall|other: StateId| other != id ==> final(self).at(other) == old(self).at(other),
    {
        self.entries.remove(&id)
    }

    /// Stores an entry under the id of its handle, replacing an earlier
    /// entry under that id.
    pub fn insert(&mut self, entry: IndexEntry<P>)
        requires
            old(self).wf(),
        ensures
            final(self).wf(),
            final(self).at(entry.state_ref.state_id) == Some(entry),
            forall|other: StateId|
                other != entry.state_ref.state_id ==> final(self).at(other) == old(self).at(other),
    {
        let id = entry.state_ref.state_id;
        self.entries.insert(id, entry);
    }

    /// Sets the expiry of the state under `id`; false when there is none.
    pub fn set_expiry(&mut self, id: StateId, expires_at: Option<Timestamp>) -> (found: bool)
        requires
            old(self).wf(),
        ensures
            final(self).wf(),
            found == old(self).at(id) is Some,
            forall|other: StateId|
                other != id ==> final(self).at(other) == old(self).at(other),
            match old(self).at(id) {
                Some(e) => final(self).at(id) matches Some(n) && n.payload == e.payload
                    && n.state_ref == (StateRef { expires_at, ..e.state_ref }),
                None => final(self).at(id) is None,
            },
    {
        match self.entries.remove(&id) {
            Some(e) => {
                let mut e = e;
                e.state_ref.expires_at = expires_at;
                self.entries.insert(id, e);
                true
            },
            None => false,
        }
    }

    /// The ids of the states that have expired at `now`, each once.
    pub fn expired_ids(&self, now: Timestamp) -> (ids: Vec<StateId>)
        ensures
            ids@.no_duplicates(),
            ids@.to_set() == expired_in(self.map(), now),
            forall|id: StateId|
                ids@.contains(id) <==> (self.at(id) matches Some(e) && is_expired(
                    e.state_ref,
                    now,
                )),
    {
        let ghost keys = spec_keys_iter(&self.entries).remaining().map_values(|r: &StateId| *r);
        proof {
            assert(keys.to_set() =~= self.map().dom()) by {
                assert(spec_keys_iter(&self.entries).remaining().unref() == keys);
            }
        }
        let mut ids: Vec<StateId> = Vec::new();
        for k in it: self.entries.keys()
            invariant
                it.seq().map_values(|r: &StateId| *r) == keys,
                keys.to_set() == self.map().dom(),
                keys.no_duplicates(),
                ids@.no_duplicates(),
                forall|id: StateId|
                    ids@.contains(id) <==> (keys.take(it.index() as int).contains(id)
                        && is_expired(self.map()[id].state_ref, now)),
        {
            let ghost before = ids@;
            let ghost i = it.index() as int;
            assert(keys[i] == *k);
            assert(keys.take(i + 1) =~= keys.take(i).push(*k));
            assert(keys.to_set().contains(*k));
            let e = self.entries.get(k).unwrap();
            assert(*e == self.map()[*k]);
            if is_expired_exec(&e.state_ref, now) {
                proof {
                    assert(!keys.take(i).contains(*k)) by {
                        if keys.take(i).contains(*k) {
                            let j = choose|j: int| 0 <= j < i && keys.take(i)[j] == *k;
                            assert(keys[j] == keys[i]);
                        }
                    }
                }
                ids.push(*k);
                assert forall|a: int, b: int| 0 <= a < b < ids@.len() implies ids@[a] != ids@[b] by {
                    if b == ids@.len() - 1 {
                        assert(before.contains(ids@[a]));
                    }
                }
            }
            let ghost t1 = keys.take(i + 1);
            let ghost t0 = keys.take(i);
            proof {
                broadcast use vstd::seq_lib::group_seq_properties;

                assert(t1 == t0.push(*k));
                if is_expired(self.map()[*k].state_ref, now) {
                    assert(ids@ == before.push(*k));
                } else {
                    assert(ids@ == before);
                }
                assert forall|id: StateId|
                    ids@.contains(id) <==> (t1.contains(id) && is_expired(
                        self.map()[id].state_ref,
                        now,
                    )) by {
                    assert(t1.contains(id) <==> (t0.contains(id) || id == *k));
                }
            }
        }
        proof {
            assert(keys.take(keys.len() as int) =~= keys);
            assert(ids@.to_set() =~= expired_in(self.map(), now));
        }
        ids
    }

    /// Drops every state that has expired at `now` and says how many.
    pub fn remove_expired(&mut self, now: Timestamp) -> (n: usize)
        requires
            old(self).wf(),
        ensures
            final(self).wf(),
            n == expired_in(old(self).map(), now).len(),
            forall|id: StateId|
                #[trigger] final(self).at(id) == match old(self).at(id) {
                    Some(e) => if is_expired(e.state_ref, now) {
                        None
                    } else {
                        Some(e)
                    },
                    None => None,
                },
    {
        let ids = self.expired_ids(now);
        let mut i: usize = 0;
        while i < ids.len()
            invariant
                i <= ids@.len(),
                self.wf(),
                forall|id: StateId|
                    ids@.contains(id) <==> (old(self).at(id) matches Some(e) && is_expired(
                        e.state_ref,
                        now,
                    )),
                forall|id: StateId|
                    #[trigger] self.at(id) == if ids@.take(i as int).contains(id) {
                        None
                    } else {
                        old(self).at(id)
                    },
            decreases ids@.len() - i,
        {
            let id = ids[i];
            assert(ids@.take(i + 1) =~= ids@.take(i as int).push(id));
            self.remove(id);
            let ghost u1 = ids@.take(i + 1);
            let ghost u0 = ids@.take(i as int);
            assert forall|x: StateId| u1.contains(x) <==> (u0.contains(x) || x == id) by {
                if u1.contains(x) && x != id {
                    let j = choose|j: int| 0 <= j < u1.len() && u1[j] == x;
                    assert(u0[j] == x);
                }
                if u0.contains(x) {
                    let j = choose|j: int| 0 <= j < u0.len() && u0[j] == x;
                    assert(u1[j] == x);
                }
                if x == id {
                    assert(u1[i as int] == x);
                }
            }
            i = i + 1;
        }
        proof {
            assert(ids@.take(ids@.len() as int) =~= ids@);
            ids@.unique_seq_to_set();
        }
        ids.len()
    }
}

// ---------------------------------------------------------------------------
// The in-memory store
// ---------------------------------------------------------------------------
/// What fetching a handle from a store finds.
pub enum Fetched {
    /// The stored bytes, which match the handle's checksum.
    Found(Seq<u8>),
    /// Nothing is stored under the handle's id.
    Missing,
    /// Bytes are stored, but their checksum differs from the handle's.
    Mismatch,
}

/// What fetching `r` finds in an index of byte payloads.
pub open spec fn fetched(entry: Option<IndexEntry<Vec<u8>>>, r: StateRef) -> Fetched {
    match entry {
        None => Fetched::Missing,
        Some(e) => if checksum_matches(e.payload@, r) {
            Fetched::Found(e.payload@)
        } else {
            Fetched::Mismatch
        },
    }
}

/// `after` holds what `before` holds, less the states expired at `now`.
pub open spec fn drops_expired(before: InMemoryStateStore, after: InMemoryStateStore, now: Timestamp) -> bool {
    forall|k: StateId|
        #[trigger] after.at(k) == match before.at(k) {
            Some(e) => if is_expired(e.state_ref, now) {
                None
            } else {
                Some(e)
            },
            None => None,
        }
}

/// What pinning `state_id` for `ttl` microseconds after `now` does: when a
/// state is stored under the id and the expiry fits a timestamp, its
/// handle gets that expiry and nothing else changes; otherwise the answer
/// is `NotFound` and nothing changes.
pub open spec fn pinned(
    before: InMemoryStateStore,
    after: InMemoryStateStore,
    state_id: StateId,
    now: Timestamp,
    ttl: u64,
    r: Result<(), StateError>,
) -> bool {
    &&& r is Ok <==> (before.at(state_id) is Some && expiry(now, Some(ttl)) is Some)
    &&& r matches Err(e) ==> e matches StateError::NotFound(id) && id == state_id
    &&& r is Ok ==> (after.at(state_id) matches Some(n) && before.at(state_id) matches Some(o)
        && n.payload == o.payload && n.state_ref == (StateRef {
        expires_at: expiry(now, Some(ttl)),
        ..o.state_ref
    }))
    &&& r is Err ==> after.at(state_id) == before.at(state_id)
    &&& forall|other: StateId| other != state_id ==> after.at(other) == before.at(other)
}

/// A state store that keeps the bytes in memory.
pub struct InMemoryStateStore {
    index: StateIndex<Vec<u8>>,
}

impl InMemoryStateStore {
    /// Each id is stored at most once.
    pub open spec fn wf(&self) -> bool {
        self.index().wf()
    }

    /// The stored states.
    pub closed spec fn index(&self) -> StateIndex<Vec<u8>> {
        self.index
    }

    /// The entry stored under `id`.
    pub open spec fn at(&self, id: StateId) -> Option<IndexEntry<Vec<u8>>> {
        self.index().at(id)
    }

    /// What fetching `r` finds.
    pub open spec fn fetch(&self, r: StateRef) -> Fetched {
        fetched(self.at(r.state_id), r)
    }

    /// What a get of `r` answers: the bytes found, `NotFound` when nothing
    /// is stored under its id, `ChecksumMismatch` when the stored bytes do
    /// not match its checksum.
    pub open spec fn get_outcome(&self, r: StateRef, got: Result<Vec<u8>, StateError>) -> bool {
        match got {
            Ok(bytes) => self.fetch(r) == Fetched::Found(bytes@),
            Err(StateError::NotFound(id)) => id == r.state_id && self.fetch(r) == Fetched::Missing,
            Err(StateError::ChecksumMismatch(id)) => id == r.state_id && self.fetch(r)
                == Fetched::Mismatch,
            Err(StateError::Io(_)) => false,
        }
    }

    /// An empty store.
    pub fn new() -> (s: Self)
        ensures
            s.wf(),
            forall|id: StateId| s.at(id) is None,
    {
        InMemoryStateStore { index: StateIndex::new() }
    }

    /// How many states are stored.
    pub fn len(&self) -> (n: usize)
        ensures
            n == self.index().map().len(),
    {
        self.index.len()
    }

    /// Stores `bytes` under `state_id` at time `now` and returns the handle.
    /// Fetching the handle afterwards gives the bytes back.
    pub fn put_with(&mut self, state_id: StateId, now: Timestamp, bytes: Vec<u8>, meta: StateMeta) -> (r:
        StateRef)
        requires
            old(self).wf(),
        ensures
            final(self).wf(),
            state_ref_spec(r, state_id, now, bytes@, meta, StateTransport::InMemory),
            final(self).at(state_id) matches Some(e) && e.payload@ == bytes@
                && crate::protocol::same_state_ref(e.state_ref, r),
            final(self).fetch(r) == Fetched::Found(bytes@),
            forall|other: StateId| other != state_id ==> final(self).at(other) == old(self).at(other),
    {
        let state_ref = make_state_ref(state_id, now, bytes.as_slice(), meta, StateTransport::InMemory);
        let handle = state_ref.duplicate();
        let entry = IndexEntry { payload: bytes, state_ref };
        self.index.insert(entry);
        handle
    }

    /// Stores `bytes` under a fresh id at the current time and returns the
    /// handle. Fetching the handle afterwards gives the bytes back.
    pub fn put(&mut self, bytes: Vec<u8>, meta: StateMeta) -> (r: StateRef)
        requires
            old(self).wf(),
        ensures
            final(self).wf(),
            state_ref_spec(r, r.state_id, r.created_at, bytes@, meta, StateTransport::InMemory),
            final(self).fetch(r) == Fetched::Found(bytes@),
            forall|other: StateId|
                other != r.state_id ==> final(self).at(other) == old(self).at(other),
    {
        let state_id = new_id();
        let now = now_micros();
        self.put_with(state_id, now, bytes, meta)
    }

    /// Fetches the bytes of a handle: `NotFound` when nothing is stored
    /// under its id, `ChecksumMismatch` when the stored bytes do not match
    /// its checksum.
    pub fn get(&self, state_ref: &StateRef) -> (r: Result<Vec<u8>, StateError>)
        requires
            self.wf(),
        ensures
            self.get_outcome(*state_ref, r),
    {
        match self.index.find(state_ref.state_id) {
            None => Err(StateError::NotFound(state_ref.state_id)),
            Some(entry) => {
                match verify_checksum(entry.payload.as_slice(), state_ref) {
                    Ok(()) => Ok(entry.payload.clone()),
                    Err(e) => Err(e),
                }
            },
        }
    }

    /// Extends the life of a state to `ttl` microseconds after `now`:
    /// `NotFound` when nothing is stored under the id, or when that instant
    /// is past what a timestamp can hold.
    pub fn pin_at(&mut self, state_id: StateId, now: Timestamp, ttl: u64) -> (r: Result<(), StateError>)
        requires
            old(self).wf(),
        ensures
            final(self).wf(),
            pinned(*old(self), *final(self), state_id, now, ttl, r),
    {
        let expires = expiry_of(now, Some(ttl));
        if expires.is_none() {
            return Err(StateError::NotFound(state_id));
        }
        if self.index.set_expiry(state_id, expires) {
            Ok(())
        } else {
            Err(StateError::NotFound(state_id))
        }
    }

    /// Extends the life of a state to `ttl` microseconds from now: as
    /// `pin_at` at the time the clock gives.
    pub fn pin(&mut self, state_id: StateId, ttl: u64) -> (r: Result<(), StateError>)
        requires
            old(self).wf(),
        ensures
            final(self).wf(),
            exists|now: Timestamp| pinned(*old(self), *final(self), state_id, now, ttl, r),
    {
        let now = now_micros();
        self.pin_at(state_id, now, ttl)
    }

    /// Drops every state that has expired at `now` and says how many.
    /// Afterwards no stored state has expired at `now`.
    pub fn delete_expired_at(&mut self, now: Timestamp) -> (n: usize)
        requires
            old(self).wf(),
        ensures
            final(self).wf(),
            n == expired_in(old(self).index().map(), now).len(),
            drops_expired(*old(self), *final(self), now),
            forall|id: StateId|
                #[trigger] final(self).at(id) is Some ==> !is_expired(
                    final(self).at(id).unwrap().state_ref,
                    now,
                ),
    {
        let n = self.index.remove_expired(now);
        assert forall|id: StateId| #[trigger] self.at(id) is Some implies !is_expired(
            self.at(id).unwrap().state_ref,
            now,
        ) by {
            assert(self.at(id) == match old(self).at(id) {
                Some(e) => if is_expired(e.state_ref, now) {
                    None
                } else {
                    Some(e)
                },
                None => None,
            });
        }
        n
    }

    /// Drops every state that has expired by now and says how many: as
    /// `delete_expired_at` at the time the clock gives.
    pub fn delete_expired(&mut self) -> (n: usize)
        requires
            old(self).wf(),
        ensures
            final(self).wf(),
            exists|now: Timestamp|
                n == expired_in(old(self).index().map(), now).len() && drops_expired(
                    *old(self),
                    *final(self),
                    now,
                ),
    {
        let now = now_micros();
        self.delete_expired_at(now)
    }
}

/// A get of a handle that a put returned gives back the bytes that the put
/// stored, as long as no other put or drop touched that id in between.
pub proof fn law_get_after_put(
    after: InMemoryStateStore,
    bytes: Seq<u8>,
    handle: StateRef,
    got: Result<Vec<u8>, StateError>,
)
    requires
        after.fetch(handle) == Fetched::Found(bytes),
        after.get_outcome(handle, got),
    ensures
        got matches Ok(b) && b@ == bytes,
{
}

/// Dropping the states expired at `now` keeps exactly those that are still
/// alive at `now`.
pub proof fn law_delete_expired_keeps_live(
    before: InMemoryStateStore,
    after: InMemoryStateStore,
    now: Timestamp,
    id: StateId,
)
    requires
        drops_expired(before, after, now),
    ensures
        before.at(id) matches Some(e) && !is_expired(e.state_ref, now) ==> after.at(id) == before.at(id),
        after.at(id) is Some ==> !is_expired(after.at(id).unwrap().state_ref, now),
{
    assert(after.at(id) == match before.at(id) {
        Some(e) => if is_expired(e.state_ref, now) {
            None
        } else {
            Some(e)
        },
        None => None,
    });
}

/// A state pinned for `ttl` microseconds after `now` survives every drop of
/// expired states made before that instant.
pub proof fn law_pinned_state_survives(
    before: InMemoryStateStore,
    pinned_store: InMemoryStateStore,
    after: InMemoryStateStore,
    state_id: StateId,
    now: Timestamp,
    ttl: u64,
    later: Timestamp,
)
    requires
        pinned(before, pinned_store, state_id, now, ttl, Ok(())),
        drops_expired(pinned_store, after, later),
        later < now + ttl,
    ensures
        after.at(state_id) is Some,
        after.at(state_id) == pinned_store.at(state_id),
{
    assert(after.at(state_id) == match pinned_store.at(state_id) {
        Some(e) => if is_expired(e.state_ref, later) {
            None
        } else {
            Some(e)
        },
        None => None,
    });
}

/// The file that holds a state in a directory of state files: the state's
/// id followed by `.bin`.
pub fn state_path(root: &str, state_id: StateId) -> (p: String)
    ensures
        p@ == joined(root@, uuid_text(state_id) + ".bin"@),
{
    let mut name = uuid_string(state_id);
    push_str(&mut name, ".bin");
    path_join(root, name.as_str())
}

} // verus!
