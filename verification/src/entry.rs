//! The journal entry, its mathematical model, and the order entries are kept in.

use vstd::prelude::*;
use crate::clock::valid_time;
use crate::text::{chars_of, hex_encode, hex_text, is_lower_hex, lemma_hex_text_is_lower_hex};

verus! {

/// One stored prompt and response.
#[derive(Debug)]
pub struct CreativityEntry {
    /// Primary key, assigned by the store.
    pub id: i64,
    /// Thirty-two lowercase hexadecimal digits, unique in the store.
    pub sync_id: String,
    /// Seconds since the epoch at which the entry was stored.
    pub created_at: i64,
    /// Seconds since the epoch of the last change.
    pub modified_at: i64,
    /// The stimulus shown to the user.
    pub prompt: String,
    /// What the user wrote.
    pub response: String,
    /// Reserved for drawn responses.
    pub drawing_vector: Option<String>,
    /// Reserved for drawn responses.
    pub drawing_preview: Option<String>,
    /// Open key and value pairs.
    pub metadata: Vec<(String, String)>,
}

/// What an entry holds, as mathematical values.
pub struct EntryView {
    pub id: int,
    pub sync_id: Seq<char>,
    pub created_at: int,
    pub modified_at: int,
    pub prompt: Seq<char>,
    pub response: Seq<char>,
    pub drawing_vector: Option<Seq<char>>,
    pub drawing_preview: Option<Seq<char>>,
    pub metadata: Seq<(Seq<char>, Seq<char>)>,
}

/// The text of an optional string.
pub open spec fn text_of(o: Option<String>) -> Option<Seq<char>> {
    match o {
        Some(s) => Some(s@),
        None => None,
    }
}

/// The texts of a list of pairs.
pub open spec fn pairs_of(v: Seq<(String, String)>) -> Seq<(Seq<char>, Seq<char>)> {
    Seq::new(v.len(), |i: int| (v[i].0@, v[i].1@))
}

impl View for CreativityEntry {
    type V = EntryView;

    open spec fn view(&self) -> EntryView {
        EntryView {
            id: self.id as int,
            sync_id: self.sync_id@,
            created_at: self.created_at as int,
            modified_at: self.modified_at as int,
            prompt: self.prompt@,
            response: self.response@,
            drawing_vector: text_of(self.drawing_vector),
            drawing_preview: text_of(self.drawing_preview),
            metadata: pairs_of(self.metadata@),
        }
    }
}

/// Why the store refused a write.
#[derive(Clone, Copy, Debug, PartialEq, Eq, Structural)]
pub enum StoreError {
    /// A text that must not be empty was empty.
    EmptyInput,
    /// The write would break the store or cannot be represented in it.
    Storage(StorageFault),
}

/// What exactly made a write impossible.
#[derive(Clone, Copy, Debug, PartialEq, Eq, Structural)]
pub enum StorageFault {
    /// The sync identifier is not thirty-two lowercase hexadecimal digits.
    MalformedSyncId,
    /// Another entry already has this sync identifier.
    DuplicateSyncId,
    /// Another entry already has this primary key, or the key is below one.
    InvalidId,
    /// A timestamp lies before the epoch or after the year 9999.
    TimestampOutOfRange,
    /// No primary key is left.
    IdentifiersExhausted,
    /// The number of entries does not fit the width it is reported in.
    CountOutOfRange,
}

/// Thirty-two lowercase hexadecimal digits.
pub open spec fn is_sync_id(s: Seq<char>) -> bool {
    &&& s.len() == 32
    &&& forall|i: int| 0 <= i < s.len() ==> is_lower_hex(#[trigger] s[i])
}

/// What must hold of every stored entry.
pub open spec fn valid_entry(e: EntryView) -> bool {
    &&& 1 <= e.id <= i64::MAX
    &&& is_sync_id(e.sync_id)
    &&& valid_time(e.created_at)
    &&& valid_time(e.modified_at)
    &&& e.prompt.len() > 0
    &&& e.response.len() > 0
}

/// `a` comes before `b` in chronological order: it was created earlier, or
/// in the same second under a smaller key.
pub open spec fn precedes(a: EntryView, b: EntryView) -> bool {
    a.created_at < b.created_at || (a.created_at == b.created_at && a.id < b.id)
}

/// Each entry comes before all that follow it.
pub open spec fn chronological(s: Seq<EntryView>) -> bool {
    forall|i: int, j: int| 0 <= i < j < s.len() ==> precedes(#[trigger] s[i], #[trigger] s[j])
}

/// No primary key and no sync identifier occurs twice.
pub open spec fn distinct_keys(s: Seq<EntryView>) -> bool {
    forall|i: int, j: int|
        0 <= i < s.len() && 0 <= j < s.len() && i != j ==> (#[trigger] s[i]).id != (
        #[trigger] s[j]).id && s[i].sync_id != s[j].sync_id
}

/// Some entry of `s` has the sync identifier `sync_id`.
pub open spec fn sync_id_taken(s: Seq<EntryView>, sync_id: Seq<char>) -> bool {
    exists|i: int| 0 <= i < s.len() && (#[trigger] s[i]).sync_id == sync_id
}

/// Some entry of `s` has the primary key `id`.
pub open spec fn id_taken(s: Seq<EntryView>, id: int) -> bool {
    exists|i: int| 0 <= i < s.len() && (#[trigger] s[i]).id == id
}

/// The index at which `e` belongs in the chronological sequence `s`: directly
/// after the last entry that comes before it.
pub open spec fn insertion_point(s: Seq<EntryView>, e: EntryView) -> int
    decreases s.len(),
{
    if s.len() == 0 {
        0
    } else if precedes(s.last(), e) {
        s.len() as int
    } else {
        insertion_point(s.drop_last(), e)
    }
}

/// Tests the form of a sync identifier.
pub fn is_sync_id_text(s: &str) -> (r: bool)
    ensures
        r == is_sync_id(s@),
{
    let cs = chars_of(s);
    if cs.len() != 32 {
        return false;
    }
    let mut i: usize = 0;
    while i < cs.len()
        invariant
            i <= cs.len(),
            cs@ == s@,
            forall|k: int| 0 <= k < i ==> is_lower_hex(#[trigger] cs@[k]),
        decreases cs.len() - i,
    {
        let c: char = cs[i];
        if !(('0' <= c && c <= '9') || ('a' <= c && c <= 'f')) {
            return false;
        }
        i = i + 1;
    }
    true
}

/// The sync identifier made of sixteen bytes from a source of randomness:
/// their lowercase hexadecimal text. Any other number of bytes gives `None`.
pub fn sync_id_from(bytes: &Vec<u8>) -> (r: Option<String>)
    ensures
        r is Some <==> bytes@.len() == 16,
        r matches Some(id) ==> id@ == hex_text(bytes@) && is_sync_id(id@),
{
    if bytes.len() != 16 {
        return None;
    }
    proof {
        lemma_hex_text_is_lower_hex(bytes@);
    }
    Some(hex_encode(bytes))
}

impl CreativityEntry {
    /// An independent copy with the same contents.
    pub fn duplicate(&self) -> (r: CreativityEntry)
        ensures
            r@ == self@,
    {
        let drawing_vector = match &self.drawing_vector {
            Some(s) => Some(s.clone()),
            None => None,
        };
        let drawing_preview = match &self.drawing_preview {
            Some(s) => Some(s.clone()),
            None => None,
        };
        let mut metadata: Vec<(String, String)> = Vec::new();
        let mut i: usize = 0;
        while i < self.metadata.len()
            invariant
                i <= self.metadata.len(),
                metadata@.len() == i,
                forall|k: int| 0 <= k < i ==> metadata@[k] == self.metadata@[k],
            decreases self.metadata.len() - i,
        {
            metadata.push((self.metadata[i].0.clone(), self.metadata[i].1.clone()));
            i = i + 1;
        }
        assert(pairs_of(metadata@) =~= pairs_of(self.metadata@));
        CreativityEntry {
            id: self.id,
            sync_id: self.sync_id.clone(),
            created_at: self.created_at,
            modified_at: self.modified_at,
            prompt: self.prompt.clone(),
            response: self.response.clone(),
            drawing_vector,
            drawing_preview,
            metadata,
        }
    }

    /// Whether this entry comes before one created at `created_at` under the
    /// key `id`.
    pub fn comes_before(&self, created_at: i64, id: i64) -> (r: bool)
        ensures
            r == (self.created_at < created_at || (self.created_at == created_at && self.id
                < id)),
    {
        self.created_at < created_at || (self.created_at == created_at && self.id < id)
    }
}

/// Putting `e` at its insertion point keeps a chronological sequence
/// chronological, provided its primary key is new.
pub proof fn lemma_insert_keeps_order(s: Seq<EntryView>, e: EntryView)
    requires
        chronological(s),
        !id_taken(s, e.id),
    ensures
        0 <= insertion_point(s, e) <= s.len(),
        chronological(s.insert(insertion_point(s, e), e)),
        forall|k: int| 0 <= k < insertion_point(s, e) ==> precedes(#[trigger] s[k], e),
        forall|k: int| insertion_point(s, e) <= k < s.len() ==> precedes(e, #[trigger] s[k]),
    decreases s.len(),
{
    let p = insertion_point(s, e);
    if s.len() == 0 {
    } else if precedes(s.last(), e) {
        assert forall|k: int| 0 <= k < p implies precedes(#[trigger] s[k], e) by {
            if k < s.len() - 1 {
                assert(precedes(s[k], s[s.len() - 1]));
            }
        }
    } else {
        let t = s.drop_last();
        assert(chronological(t)) by {
            assert forall|i: int, j: int| 0 <= i < j < t.len() implies precedes(
                #[trigger] t[i],
                #[trigger] t[j],
            ) by {
                assert(precedes(s[i], s[j]));
            }
        }
        assert(!id_taken(t, e.id)) by {
            if id_taken(t, e.id) {
                let i = choose|i: int| 0 <= i < t.len() && (#[trigger] t[i]).id == e.id;
                assert(s[i].id == e.id);
            }
        }
        lemma_insert_keeps_order(t, e);
        assert(s[s.len() - 1].id != e.id);
        assert(precedes(e, s.last()));
        assert forall|k: int| p <= k < s.len() implies precedes(e, #[trigger] s[k]) by {
            if k < t.len() {
                assert(precedes(e, t[k]));
            }
        }
        assert forall|k: int| 0 <= k < p implies precedes(#[trigger] s[k], e) by {
            assert(precedes(t[k], e));
        }
    }
    let r = s.insert(p, e);
    assert forall|i: int, j: int| 0 <= i < j < r.len() implies precedes(
        #[trigger] r[i],
        #[trigger] r[j],
    ) by {
        if j < p {
            assert(precedes(s[i], s[j]));
        } else if j == p {
            assert(precedes(s[i], e));
        } else if i < p {
            assert(precedes(s[i], s[j - 1]));
        } else if i == p {
            assert(precedes(e, s[j - 1]));
        } else {
            assert(precedes(s[i - 1], s[j - 1]));
        }
    }
}

} // verus!
