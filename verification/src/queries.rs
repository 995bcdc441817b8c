//! Reading the store: the newest entries, a case-insensitive search, the
//! aggregate figures, and the full export.

use vstd::prelude::*;
use crate::clock::{display_pattern, format_utc, utc_text};
use crate::entry::{chronological, precedes, CreativityEntry, EntryView, StorageFault, StoreError};
use crate::store::Database;
use crate::text::{chars_of, contains_folded, contains_ignoring_case};

verus! {

/// The models of a list of entries.
pub open spec fn views(v: Seq<CreativityEntry>) -> Seq<EntryView> {
    Seq::new(v.len(), |i: int| v[i]@)
}

/// The newest `limit` entries of `s`, the newest first.
pub open spec fn newest_first(s: Seq<EntryView>, limit: int) -> Seq<EntryView> {
    Seq::new(
        if limit < s.len() {
            limit as nat
        } else {
            s.len()
        },
        |i: int| s[s.len() - 1 - i],
    )
}

/// The prompt or the response of `e` contains `q`, the letters `A` to `Z`
/// taken as their small forms.
pub open spec fn entry_matches(e: EntryView, q: Seq<char>) -> bool {
    contains_folded(e.prompt, q) || contains_folded(e.response, q)
}

/// The entries of `s` that match `q`, in reverse of the order of `s`.
pub open spec fn matching_newest_first(s: Seq<EntryView>, q: Seq<char>) -> Seq<EntryView>
    decreases s.len(),
{
    if s.len() == 0 {
        Seq::empty()
    } else if entry_matches(s.first(), q) {
        matching_newest_first(s.drop_first(), q).push(s.first())
    } else {
        matching_newest_first(s.drop_first(), q)
    }
}

/// The text shown where a store without entries has no instant to show.
pub open spec fn no_entries_text() -> Seq<char> {
    "No entries yet"@
}

/// The display text of the oldest entry's creation, or the placeholder.
pub open spec fn first_created_text(s: Seq<EntryView>) -> Seq<char> {
    if s.len() == 0 {
        no_entries_text()
    } else {
        utc_text(s.first().created_at, display_pattern())
    }
}

/// The display text of the newest entry's creation, or the placeholder.
pub open spec fn last_created_text(s: Seq<EntryView>) -> Seq<char> {
    if s.len() == 0 {
        no_entries_text()
    } else {
        utc_text(s.last().created_at, display_pattern())
    }
}

/// One entry as the export holds it.
#[derive(Debug)]
pub struct ExportedEntry {
    pub id: i64,
    pub prompt: String,
    pub response: String,
    /// Seconds since the epoch.
    pub created_at: i64,
}

/// What an exported entry holds, as mathematical values.
pub struct ExportedView {
    pub id: int,
    pub prompt: Seq<char>,
    pub response: Seq<char>,
    pub created_at: int,
}

impl View for ExportedEntry {
    type V = ExportedView;

    open spec fn view(&self) -> ExportedView {
        ExportedView {
            id: self.id as int,
            prompt: self.prompt@,
            response: self.response@,
            created_at: self.created_at as int,
        }
    }
}

/// A full dump of the store.
#[derive(Debug)]
pub struct ExportDocument {
    /// Seconds since the epoch at which the export was made.
    pub export_date: i64,
    pub total_entries: usize,
    /// Every entry, the oldest first.
    pub entries: Vec<ExportedEntry>,
}

/// What an export holds, as mathematical values.
pub struct ExportView {
    pub export_date: int,
    pub total_entries: int,
    pub entries: Seq<ExportedView>,
}

impl View for ExportDocument {
    type V = ExportView;

    open spec fn view(&self) -> ExportView {
        ExportView {
            export_date: self.export_date as int,
            total_entries: self.total_entries as int,
            entries: Seq::new(self.entries@.len(), |i: int| self.entries@[i]@),
        }
    }
}

/// The exported form of one entry.
pub open spec fn exported_entry(e: EntryView) -> ExportedView {
    ExportedView { id: e.id, prompt: e.prompt, response: e.response, created_at: e.created_at }
}

/// The exported form of every entry of `s`, in the order of `s`.
pub open spec fn exported_entries(s: Seq<EntryView>) -> Seq<ExportedView> {
    Seq::new(s.len(), |i: int| exported_entry(s[i]))
}

/// The export of the store `s` made at instant `now`.
pub open spec fn export_of(s: Seq<EntryView>, now: int) -> ExportView {
    ExportView { export_date: now, total_entries: s.len() as int, entries: exported_entries(s) }
}

/// In a chronological sequence no entry was created before one that stands
/// earlier.
pub proof fn lemma_created_at_ascends(s: Seq<EntryView>, i: int, j: int)
    requires
        chronological(s),
        0 <= i <= j < s.len(),
    ensures
        s[i].created_at <= s[j].created_at,
{
    if i < j {
        assert(precedes(s[i], s[j]));
    }
}

/// A search returns exactly the matching entries of the store, and of a
/// chronological store it returns them newest first.
pub proof fn lemma_search_is_exact(s: Seq<EntryView>, q: Seq<char>)
    ensures
        forall|e: EntryView|
            #[trigger] matching_newest_first(s, q).contains(e) <==> s.contains(e) && entry_matches(
                e,
                q,
            ),
        matching_newest_first(s, q).len() <= s.len(),
        chronological(s) ==> forall|i: int, j: int|
            0 <= i < j < matching_newest_first(s, q).len() ==> precedes(
                #[trigger] matching_newest_first(s, q)[j],
                #[trigger] matching_newest_first(s, q)[i],
            ),
    decreases s.len(),
{
    let m = matching_newest_first(s, q);
    if s.len() == 0 {
        assert forall|e: EntryView| #[trigger]
            m.contains(e) <==> s.contains(e) && entry_matches(e, q) by {
            if m.contains(e) {
                let i = choose|i: int| 0 <= i < m.len() && m[i] == e;
            }
            if s.contains(e) {
                let i = choose|i: int| 0 <= i < s.len() && s[i] == e;
            }
        }
    } else {
        let t = s.drop_first();
        let mt = matching_newest_first(t, q);
        lemma_search_is_exact(t, q);
        assert forall|e: EntryView| #[trigger]
            m.contains(e) <==> s.contains(e) && entry_matches(e, q) by {
            assert(mt.contains(e) <==> t.contains(e) && entry_matches(e, q));
            if m.contains(e) {
                let i = choose|i: int| 0 <= i < m.len() && m[i] == e;
                if i < mt.len() {
                    assert(mt[i] == e);
                    assert(mt.contains(e));
                    assert(t.contains(e));
                    let k = choose|k: int| 0 <= k < t.len() && t[k] == e;
                    assert(s[k + 1] == e);
                } else {
                    assert(s[0] == e);
                }
            }
            if s.contains(e) && entry_matches(e, q) {
                let k = choose|k: int| 0 <= k < s.len() && s[k] == e;
                if k == 0 {
                    assert(m[m.len() - 1] == e);
                } else {
                    assert(t[k - 1] == e);
                    assert(t.contains(e));
                    assert(mt.contains(e));
                    let i = choose|i: int| 0 <= i < mt.len() && mt[i] == e;
                    assert(m[i] == e);
                }
            }
        }
        if chronological(s) {
            assert(chronological(t)) by {
                assert forall|i: int, j: int| 0 <= i < j < t.len() implies precedes(
                    #[trigger] t[i],
                    #[trigger] t[j],
                ) by {
                    assert(precedes(s[i + 1], s[j + 1]));
                }
            }
            assert forall|i: int, j: int| 0 <= i < j < m.len() implies precedes(
                #[trigger] m[j],
                #[trigger] m[i],
            ) by {
                if j < mt.len() {
                    assert(precedes(mt[j], mt[i]));
                } else {
                    assert(m[j] == s[0]);
                    assert(mt[i] == m[i]);
                    assert(mt.contains(m[i]));
                    assert(mt.contains(m[i]) <==> t.contains(m[i]) && entry_matches(m[i], q));
                    assert(t.contains(m[i]));
                    let k = choose|k: int| 0 <= k < t.len() && t[k] == m[i];
                    assert(precedes(s[0], s[k + 1]));
                }
            }
        }
    }
}

impl Database {
    /// The newest entries, the newest first, at most `limit` of them. Each
    /// call reads the store afresh.
    pub fn list_entries(&self, limit: u32) -> (r: Vec<CreativityEntry>)
        requires
            self.wf(),
        ensures
            views(r@) == newest_first(self@, limit as int),
            r@.len() == if limit < self@.len() {
                limit as nat
            } else {
                self@.len()
            },
            forall|i: int, j: int|
                0 <= i < j < r@.len() ==> (#[trigger] r@[i]).created_at >= (
                #[trigger] r@[j]).created_at,
    {
        let n = self.len();
        let want: usize = if (limit as usize) < n {
            limit as usize
        } else {
            n
        };
        let mut out: Vec<CreativityEntry> = Vec::new();
        let mut i: usize = 0;
        while i < want
            invariant
                i <= want <= n,
                n == self@.len(),
                out@.len() == i,
                forall|k: int| 0 <= k < i ==> (#[trigger] out@[k])@ == self@[n - 1 - k],
            decreases want - i,
        {
            out.push(self.entry(n - 1 - i).duplicate());
            i = i + 1;
        }
        proof {
            assert(views(out@) =~= newest_first(self@, limit as int));
            assert forall|i: int, j: int| 0 <= i < j < out@.len() implies (
            #[trigger] out@[i]).created_at >= (#[trigger] out@[j]).created_at by {
                lemma_created_at_ascends(self@, n - 1 - j, n - 1 - i);
                assert(out@[i]@ == self@[n - 1 - i]);
                assert(out@[j]@ == self@[n - 1 - j]);
            }
        }
        out
    }

    /// Every entry whose prompt or response contains `query`, the newest
    /// first. The letters `A` to `Z` match their small forms; every other
    /// character, accented letters among them, matches only itself. No
    /// match gives the empty list.
    pub fn search_entries(&self, query: &str) -> (r: Vec<CreativityEntry>)
        requires
            self.wf(),
        ensures
            views(r@) == matching_newest_first(self@, query@),
            r@.len() == matching_newest_first(self@, query@).len(),
            r@.len() <= self@.len(),
            forall|e: EntryView|
                #[trigger] views(r@).contains(e) <==> self@.contains(e) && entry_matches(
                    e,
                    query@,
                ),
            forall|i: int, j: int|
                0 <= i < j < r@.len() ==> precedes(
                    #[trigger] views(r@)[j],
                    #[trigger] views(r@)[i],
                ),
    {
        let needle = chars_of(query);
        let n = self.len();
        let mut out: Vec<CreativityEntry> = Vec::new();
        let mut i: usize = n;
        assert(self@.subrange(n as int, n as int) =~= Seq::<EntryView>::empty());
        while i > 0
            invariant
                i <= n,
                n == self@.len(),
                needle@ == query@,
                views(out@) == matching_newest_first(self@.subrange(i as int, n as int), query@),
            decreases i,
        {
            let e = self.entry(i - 1);
            let prompt = chars_of(e.prompt.as_str());
            let response = chars_of(e.response.as_str());
            let hit = contains_ignoring_case(&prompt, &needle) || contains_ignoring_case(
                &response,
                &needle,
            );
            proof {
                let rest = self@.subrange(i - 1, n as int);
                assert(rest.first() == self@[i - 1]);
                assert(rest.drop_first() =~= self@.subrange(i as int, n as int));
                assert(hit == entry_matches(self@[i - 1], query@));
            }
            if hit {
                let ghost before = views(out@);
                out.push(e.duplicate());
                assert(views(out@) =~= before.push(self@[i - 1]));
            }
            i = i - 1;
        }
        proof {
            assert(self@.subrange(0, n as int) =~= self@);
            lemma_search_is_exact(self@, query@);
        }
        out
    }

    /// The number of entries and the display texts of the oldest and the
    /// newest creation instant; the placeholder text stands for both in a
    /// store without entries. Fails only when the count does not fit.
    pub fn get_stats(&self) -> (r: Result<(u32, String, String), StoreError>)
        requires
            self.wf(),
        ensures
            match r {
                Ok((total, first, last)) => {
                    &&& total == self@.len()
                    &&& first@ == first_created_text(self@)
                    &&& last@ == last_created_text(self@)
                },
                Err(err) => {
                    &&& self@.len() > u32::MAX
                    &&& err == StoreError::Storage(StorageFault::CountOutOfRange)
                },
            },
    {
        let n = self.len();
        if n > u32::MAX as usize {
            return Err(StoreError::Storage(StorageFault::CountOutOfRange));
        }
        if n == 0 {
            return Ok((0, "No entries yet".to_owned(), "No entries yet".to_owned()));
        }
        let first = format_utc(self.entry(0).created_at, "%Y-%m-%d %H:%M:%S UTC");
        let last = format_utc(self.entry(n - 1).created_at, "%Y-%m-%d %H:%M:%S UTC");
        Ok((n as u32, first, last))
    }

    /// The full dump of the store as of instant `now`: every entry, the
    /// oldest first.
    pub fn export_all(&self, now: i64) -> (doc: ExportDocument)
        requires
            self.wf(),
        ensures
            doc@ == export_of(self@, now as int),
            doc.entries@.len() == self@.len(),
    {
        let n = self.len();
        let mut rows: Vec<ExportedEntry> = Vec::new();
        let mut i: usize = 0;
        while i < n
            invariant
                i <= n,
                n == self@.len(),
                rows@.len() == i,
                forall|k: int| 0 <= k < i ==> (#[trigger] rows@[k])@ == exported_entry(self@[k]),
            decreases n - i,
        {
            let e = self.entry(i);
            rows.push(
                ExportedEntry {
                    id: e.id,
                    prompt: e.prompt.clone(),
                    response: e.response.clone(),
                    created_at: e.created_at,
                },
            );
            i = i + 1;
        }
        let doc = ExportDocument { export_date: now, total_entries: n, entries: rows };
        assert(doc@.entries =~= exported_entries(self@));
        doc
    }

}

} // verus!
