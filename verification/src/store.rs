//! The entry store: an append-only collection of entries kept in
//! chronological order, under primary keys and sync identifiers that never
//! repeat.

use vstd::prelude::*;
use crate::clock::{valid_time, MAX_TIMESTAMP};
use crate::entry::{
    chronological, distinct_keys, id_taken, insertion_point, is_sync_id, is_sync_id_text,
    lemma_insert_keeps_order, sync_id_taken, valid_entry, CreativityEntry, EntryView,
    StorageFault, StoreError,
};

verus! {

/// The entries of one journal, oldest first.
pub struct Database {
    entries: Vec<CreativityEntry>,
    next_id: i64,
}

/// What must hold of the entries `s` of a store whose next primary key is
/// `next_id`.
pub open spec fn valid_store(s: Seq<EntryView>, next_id: int) -> bool {
    &&& 1 <= next_id <= i64::MAX
    &&& chronological(s)
    &&& distinct_keys(s)
    &&& forall|i: int| 0 <= i < s.len() ==> valid_entry(#[trigger] s[i]) && s[i].id < next_id
}

/// The entry that a successful write of `prompt` and `response` creates.
pub open spec fn fresh_entry(
    id: int,
    sync_id: Seq<char>,
    now: int,
    prompt: Seq<char>,
    response: Seq<char>,
) -> EntryView {
    EntryView {
        id,
        sync_id,
        created_at: now,
        modified_at: now,
        prompt,
        response,
        drawing_vector: None,
        drawing_preview: None,
        metadata: Seq::empty(),
    }
}

/// Why a new entry is refused, if it is: the first of these that applies.
pub open spec fn add_rejection(
    s: Seq<EntryView>,
    next_id: int,
    prompt: Seq<char>,
    response: Seq<char>,
    sync_id: Seq<char>,
    now: int,
) -> Option<StoreError> {
    if prompt.len() == 0 || response.len() == 0 {
        Some(StoreError::EmptyInput)
    } else if !valid_time(now) {
        Some(StoreError::Storage(StorageFault::TimestampOutOfRange))
    } else if !is_sync_id(sync_id) {
        Some(StoreError::Storage(StorageFault::MalformedSyncId))
    } else if sync_id_taken(s, sync_id) {
        Some(StoreError::Storage(StorageFault::DuplicateSyncId))
    } else if next_id >= i64::MAX {
        Some(StoreError::Storage(StorageFault::IdentifiersExhausted))
    } else {
        None
    }
}

/// Why an entry that already has its key is refused, if it is: the first of
/// these that applies.
pub open spec fn restore_rejection(s: Seq<EntryView>, e: EntryView) -> Option<StoreError> {
    if e.prompt.len() == 0 || e.response.len() == 0 {
        Some(StoreError::EmptyInput)
    } else if !valid_time(e.created_at) || !valid_time(e.modified_at) {
        Some(StoreError::Storage(StorageFault::TimestampOutOfRange))
    } else if !is_sync_id(e.sync_id) {
        Some(StoreError::Storage(StorageFault::MalformedSyncId))
    } else if sync_id_taken(s, e.sync_id) {
        Some(StoreError::Storage(StorageFault::DuplicateSyncId))
    } else if e.id < 1 || id_taken(s, e.id) {
        Some(StoreError::Storage(StorageFault::InvalidId))
    } else if e.id >= i64::MAX {
        Some(StoreError::Storage(StorageFault::IdentifiersExhausted))
    } else {
        None
    }
}

/// The store after `e` has been put in its chronological place.
pub open spec fn with_entry(s: Seq<EntryView>, e: EntryView) -> Seq<EntryView> {
    s.insert(insertion_point(s, e), e)
}

/// How a write of `prompt` and `response` at instant `now` relates the store
/// before it, the store after it and the result.
pub open spec fn add_outcome(
    before: Seq<EntryView>,
    next_before: int,
    after: Seq<EntryView>,
    next_after: int,
    prompt: Seq<char>,
    response: Seq<char>,
    sync_id: Seq<char>,
    now: int,
    r: Result<CreativityEntry, StoreError>,
) -> bool {
    match r {
        Ok(e) => {
            &&& add_rejection(before, next_before, prompt, response, sync_id, now) is None
            &&& e@ == fresh_entry(next_before, sync_id, now, prompt, response)
            &&& after == with_entry(before, e@)
            &&& next_after == next_before + 1
        },
        Err(err) => {
            &&& add_rejection(before, next_before, prompt, response, sync_id, now) == Some(err)
            &&& after == before
            &&& next_after == next_before
        },
    }
}

/// One request to store a new entry.
pub struct AddRequest {
    pub prompt: Seq<char>,
    pub response: Seq<char>,
    pub sync_id: Seq<char>,
    pub now: int,
}

/// The entries and the next primary key of a store.
pub struct StoreState {
    pub entries: Seq<EntryView>,
    pub next_id: int,
}

/// The store after one request: with the new entry where the request is
/// accepted, unchanged where it is refused.
pub open spec fn after_request(st: StoreState, req: AddRequest) -> StoreState {
    if add_rejection(st.entries, st.next_id, req.prompt, req.response, req.sync_id, req.now)
        is None {
        StoreState {
            entries: with_entry(
                st.entries,
                fresh_entry(st.next_id, req.sync_id, req.now, req.prompt, req.response),
            ),
            next_id: st.next_id + 1,
        }
    } else {
        st
    }
}

/// The store after the requests `reqs`, made in order.
pub open spec fn after_requests(st: StoreState, reqs: Seq<AddRequest>) -> StoreState
    decreases reqs.len(),
{
    if reqs.len() == 0 {
        st
    } else {
        after_request(after_requests(st, reqs.drop_last()), reqs.last())
    }
}

/// Putting an entry with a new primary key and a new sync identifier at its
/// chronological place keeps the store valid.
pub proof fn lemma_with_entry_valid(s: Seq<EntryView>, next_id: int, e: EntryView)
    requires
        valid_store(s, next_id),
        valid_entry(e),
        e.id < i64::MAX,
        !id_taken(s, e.id),
        !sync_id_taken(s, e.sync_id),
    ensures
        with_entry(s, e).len() == s.len() + 1,
        valid_store(
            with_entry(s, e),
            if e.id >= next_id {
                e.id + 1
            } else {
                next_id
            },
        ),
{
    lemma_insert_keeps_order(s, e);
    let p = insertion_point(s, e);
    let after = with_entry(s, e);
    let next = if e.id >= next_id {
        e.id + 1
    } else {
        next_id
    };
    assert forall|i: int| 0 <= i < after.len() implies valid_entry(#[trigger] after[i])
        && after[i].id < next by {
        if i < p {
            assert(after[i] == s[i]);
        } else if i > p {
            assert(after[i] == s[i - 1]);
        }
    }
    assert forall|i: int, j: int|
        0 <= i < after.len() && 0 <= j < after.len() && i != j implies (#[trigger] after[i]).id != (
    #[trigger] after[j]).id && after[i].sync_id != after[j].sync_id by {
        let a = if i < p {
            i
        } else {
            i - 1
        };
        let b = if j < p {
            j
        } else {
            j - 1
        };
        if i != p && j != p {
            assert(after[i] == s[a]);
            assert(after[j] == s[b]);
        } else if i == p {
            assert(after[j] == s[b]);
        } else {
            assert(after[i] == s[a]);
        }
    }
}

/// Whatever is asked of a valid store, and however often, it stays valid:
/// its entries stay in chronological order, and no primary key and no sync
/// identifier comes to stand twice.
pub proof fn lemma_requests_keep_store_valid(st: StoreState, reqs: Seq<AddRequest>)
    requires
        valid_store(st.entries, st.next_id),
    ensures
        valid_store(after_requests(st, reqs).entries, after_requests(st, reqs).next_id),
        chronological(after_requests(st, reqs).entries),
        distinct_keys(after_requests(st, reqs).entries),
    decreases reqs.len(),
{
    if reqs.len() > 0 {
        let prev = after_requests(st, reqs.drop_last());
        let req = reqs.last();
        lemma_requests_keep_store_valid(st, reqs.drop_last());
        if add_rejection(prev.entries, prev.next_id, req.prompt, req.response, req.sync_id, req.now)
            is None {
            let e = fresh_entry(prev.next_id, req.sync_id, req.now, req.prompt, req.response);
            if id_taken(prev.entries, e.id) {
                let i = choose|i: int|
                    0 <= i < prev.entries.len() && (#[trigger] prev.entries[i]).id == e.id;
                assert(prev.entries[i].id < prev.next_id);
            }
            lemma_with_entry_valid(prev.entries, prev.next_id, e);
        }
    }
}

impl View for Database {
    type V = Seq<EntryView>;

    closed spec fn view(&self) -> Seq<EntryView> {
        Seq::new(self.entries@.len(), |i: int| self.entries@[i]@)
    }
}

impl Database {
    /// The primary key that the next new entry receives.
    pub closed spec fn next_id(&self) -> int {
        self.next_id as int
    }

    /// The store's invariant.
    pub open spec fn wf(&self) -> bool {
        valid_store(self@, self.next_id())
    }

    /// An empty store.
    pub fn new() -> (db: Database)
        ensures
            db.wf(),
            db@ == Seq::<EntryView>::empty(),
            db.next_id() == 1,
    {
        let db = Database { entries: Vec::new(), next_id: 1 };
        assert(db@ =~= Seq::<EntryView>::empty());
        db
    }

    /// The number of entries.
    pub fn len(&self) -> (n: usize)
        ensures
            n == self@.len(),
    {
        self.entries.len()
    }

    /// The entry at position `i`, counted from the oldest.
    pub fn entry(&self, i: usize) -> (e: &CreativityEntry)
        requires
            i < self@.len(),
        ensures
            e@ == self@[i as int],
    {
        &self.entries[i]
    }

    /// Whether an entry with this sync identifier is stored.
    pub fn has_sync_id(&self, sync_id: &str) -> (r: bool)
        ensures
            r == sync_id_taken(self@, sync_id@),
    {
        let key = sync_id.to_owned();
        let mut i: usize = 0;
        while i < self.entries.len()
            invariant
                i <= self.entries.len(),
                key@ == sync_id@,
                forall|k: int| 0 <= k < i ==> (#[trigger] self@[k]).sync_id != sync_id@,
            decreases self.entries.len() - i,
        {
            if self.entries[i].sync_id == key {
                assert(self@[i as int].sync_id == sync_id@);
                return true;
            }
            i = i + 1;
        }
        false
    }

    /// Whether an entry with this primary key is stored.
    pub fn has_id(&self, id: i64) -> (r: bool)
        ensures
            r == id_taken(self@, id as int),
    {
        let mut i: usize = 0;
        while i < self.entries.len()
            invariant
                i <= self.entries.len(),
                forall|k: int| 0 <= k < i ==> (#[trigger] self@[k]).id != id,
            decreases self.entries.len() - i,
        {
            if self.entries[i].id == id {
                assert(self@[i as int].id == id);
                return true;
            }
            i = i + 1;
        }
        false
    }

    /// Puts an entry that has passed every test at its chronological place.
    fn place(&mut self, entry: CreativityEntry)
        requires
            old(self).wf(),
            valid_entry(entry@),
            entry.id < i64::MAX,
            !id_taken(old(self)@, entry@.id),
            !sync_id_taken(old(self)@, entry@.sync_id),
        ensures
            final(self).wf(),
            final(self)@ == with_entry(old(self)@, entry@),
            final(self).next_id() == if entry.id >= old(self).next_id() {
                entry.id + 1
            } else {
                old(self).next_id()
            },
    {
        let ghost before = self@;
        let ghost e = entry@;
        let mut p: usize = self.entries.len();
        assert(before.take(p as int) == before);
        while p > 0 && !self.entries[p - 1].comes_before(entry.created_at, entry.id)
            invariant
                p <= self.entries.len(),
                self@ == before,
                e == entry@,
                insertion_point(before, e) == insertion_point(before.take(p as int), e),
            decreases p,
        {
            proof {
                assert(before.take(p as int).drop_last() == before.take(p - 1));
            }
            p = p - 1;
        }
        proof {
            if p > 0 {
                assert(before.take(p as int).last() == before[p - 1]);
            }
            assert(insertion_point(before, e) == p);
        }
        if entry.id >= self.next_id {
            self.next_id = entry.id + 1;
        }
        self.entries.insert(p, entry);
        proof {
            assert(self@ =~= with_entry(before, e));
            lemma_with_entry_valid(before, old(self).next_id(), e);
        }
    }

    /// Stores a new entry created at instant `now`. The entry receives the
    /// next primary key and stands after every entry that is not newer.
    /// Nothing changes when the write is refused.
    pub fn add_entry(&mut self, prompt: &str, response: &str, sync_id: &str, now: i64) -> (r:
        Result<CreativityEntry, StoreError>)
        requires
            old(self).wf(),
        ensures
            final(self).wf(),
            add_outcome(
                old(self)@,
                old(self).next_id(),
                final(self)@,
                final(self).next_id(),
                prompt@,
                response@,
                sync_id@,
                now as int,
                r,
            ),
    {
        if prompt.is_empty() || response.is_empty() {
            return Err(StoreError::EmptyInput);
        }
        if now < 0 || now > MAX_TIMESTAMP {
            return Err(StoreError::Storage(StorageFault::TimestampOutOfRange));
        }
        if !is_sync_id_text(sync_id) {
            return Err(StoreError::Storage(StorageFault::MalformedSyncId));
        }
        if self.has_sync_id(sync_id) {
            return Err(StoreError::Storage(StorageFault::DuplicateSyncId));
        }
        if self.next_id >= i64::MAX {
            return Err(StoreError::Storage(StorageFault::IdentifiersExhausted));
        }
        let entry = CreativityEntry {
            id: self.next_id,
            sync_id: sync_id.to_owned(),
            created_at: now,
            modified_at: now,
            prompt: prompt.to_owned(),
            response: response.to_owned(),
            drawing_vector: None,
            drawing_preview: None,
            metadata: Vec::new(),
        };
        proof {
            assert(entry@.metadata =~= Seq::empty());
            assert(entry@ == fresh_entry(self.next_id(), sync_id@, now as int, prompt@, response@));
            if id_taken(self@, entry@.id) {
                let i = choose|i: int| 0 <= i < self@.len() && (#[trigger] self@[i]).id == entry@.id;
                assert(self@[i].id < self.next_id());
            }
        }
        let stored = entry.duplicate();
        self.place(entry);
        Ok(stored)
    }

    /// Takes in an entry that already has its primary key, such as one read
    /// back from durable storage. Nothing changes when it is refused.
    pub fn restore_entry(&mut self, entry: CreativityEntry) -> (r: Result<(), StoreError>)
        requires
            old(self).wf(),
        ensures
            final(self).wf(),
            match r {
                Ok(_) => {
                    &&& restore_rejection(old(self)@, entry@) is None
                    &&& final(self)@ == with_entry(old(self)@, entry@)
                    &&& final(self).next_id() == if entry.id >= old(self).next_id() {
                        entry.id + 1
                    } else {
                        old(self).next_id()
                    }
                },
                Err(err) => {
                    &&& restore_rejection(old(self)@, entry@) == Some(err)
                    &&& final(self)@ == old(self)@
                    &&& final(self).next_id() == old(self).next_id()
                },
            },
    {
        if entry.prompt.as_str().is_empty() || entry.response.as_str().is_empty() {
            return Err(StoreError::EmptyInput);
        }
        if entry.created_at < 0 || entry.created_at > MAX_TIMESTAMP || entry.modified_at < 0
            || entry.modified_at > MAX_TIMESTAMP {
            return Err(StoreError::Storage(StorageFault::TimestampOutOfRange));
        }
        if !is_sync_id_text(entry.sync_id.as_str()) {
            return Err(StoreError::Storage(StorageFault::MalformedSyncId));
        }
        if self.has_sync_id(entry.sync_id.as_str()) {
            return Err(StoreError::Storage(StorageFault::DuplicateSyncId));
        }
        if entry.id < 1 || self.has_id(entry.id) {
            return Err(StoreError::Storage(StorageFault::InvalidId));
        }
        if entry.id >= i64::MAX {
            return Err(StoreError::Storage(StorageFault::IdentifiersExhausted));
        }
        self.place(entry);
        Ok(())
    }
}

} // verus!
