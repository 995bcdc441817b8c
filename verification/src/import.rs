//! Taking exported entries back into a store, and the law that nothing is
//! lost on the way.

use vstd::prelude::*;
use crate::entry::{
    chronological, id_taken, insertion_point, is_sync_id, precedes, sync_id_taken, valid_entry,
    CreativityEntry, EntryView, StoreError,
};
use crate::queries::{exported_entries, exported_entry, ExportedEntry, ExportedView};
use crate::store::{lemma_with_entry_valid, restore_rejection, valid_store, with_entry, Database};

verus! {

/// The entry that an exported row becomes under the sync identifier
/// `sync_id`: the export does not carry sync identifiers, so a fresh one is
/// given, and the entry counts as unchanged since its creation.
pub open spec fn restored_entry(row: ExportedView, sync_id: Seq<char>) -> EntryView {
    EntryView {
        id: row.id,
        sync_id,
        created_at: row.created_at,
        modified_at: row.created_at,
        prompt: row.prompt,
        response: row.response,
        drawing_vector: None,
        drawing_preview: None,
        metadata: Seq::empty(),
    }
}

/// The store that holds the first `n` of the rows `rows`, taken in in order,
/// each under the sync identifier at its position in `sync_ids`.
pub open spec fn imported(rows: Seq<ExportedView>, sync_ids: Seq<Seq<char>>, n: nat) -> Seq<
    EntryView,
>
    decreases n,
{
    if n == 0 {
        Seq::empty()
    } else {
        with_entry(
            imported(rows, sync_ids, (n - 1) as nat),
            restored_entry(rows[n - 1], sync_ids[n - 1]),
        )
    }
}

/// The sync identifiers are well formed and pairwise different.
pub open spec fn fresh_sync_ids(sync_ids: Seq<Seq<char>>) -> bool {
    &&& forall|i: int| 0 <= i < sync_ids.len() ==> is_sync_id(#[trigger] sync_ids[i])
    &&& forall|i: int, j: int|
        0 <= i < j < sync_ids.len() ==> #[trigger] sync_ids[i] != #[trigger] sync_ids[j]
}

/// An entry that every entry of `s` precedes belongs at the end of `s`.
pub proof fn lemma_newest_goes_last(s: Seq<EntryView>, e: EntryView)
    requires
        forall|i: int| 0 <= i < s.len() ==> precedes(#[trigger] s[i], e),
    ensures
        with_entry(s, e) == s.push(e),
{
    if s.len() > 0 {
        assert(precedes(s.last(), e));
    }
    assert(insertion_point(s, e) == s.len());
    assert(s.insert(s.len() as int, e) =~= s.push(e));
}

/// What taking in the first `n` exported rows of a valid store gives: a
/// valid store of `n` entries, each the restored form of its row.
pub proof fn lemma_imported_prefix(
    s: Seq<EntryView>,
    next_id: int,
    sync_ids: Seq<Seq<char>>,
    n: nat,
)
    requires
        valid_store(s, next_id),
        sync_ids.len() == s.len(),
        fresh_sync_ids(sync_ids),
        n <= s.len(),
    ensures
        imported(exported_entries(s), sync_ids, n).len() == n,
        forall|i: int|
            0 <= i < n ==> #[trigger] imported(exported_entries(s), sync_ids, n)[i]
                == restored_entry(exported_entry(s[i]), sync_ids[i]),
        valid_store(imported(exported_entries(s), sync_ids, n), next_id),
        n > 0 ==> restore_rejection(
            imported(exported_entries(s), sync_ids, (n - 1) as nat),
            restored_entry(exported_entry(s[n - 1]), sync_ids[n - 1]),
        ) is None,
    decreases n,
{
    let rows = exported_entries(s);
    if n > 0 {
        let k = (n - 1) as nat;
        let prev = imported(rows, sync_ids, k);
        let e = restored_entry(rows[n - 1], sync_ids[n - 1]);
        lemma_imported_prefix(s, next_id, sync_ids, k);
        assert(rows[n - 1] == exported_entry(s[n - 1]));
        assert(valid_entry(s[n - 1]));
        assert(valid_entry(e));
        assert forall|i: int| 0 <= i < prev.len() implies precedes(#[trigger] prev[i], e) by {
            assert(precedes(s[i], s[n - 1]));
        }
        if sync_id_taken(prev, e.sync_id) {
            let i = choose|i: int| 0 <= i < prev.len() && (#[trigger] prev[i]).sync_id == e.sync_id;
            assert(sync_ids[i] != sync_ids[n - 1]);
        }
        if id_taken(prev, e.id) {
            let i = choose|i: int| 0 <= i < prev.len() && (#[trigger] prev[i]).id == e.id;
            assert(s[i].id != s[n - 1].id);
        }
        lemma_newest_goes_last(prev, e);
        lemma_with_entry_valid(prev, next_id, e);
    } else {
        assert(chronological(imported(rows, sync_ids, n)));
    }
}

/// Exporting a valid store, taking the exported rows into an empty store
/// under fresh sync identifiers, and exporting again gives the same rows:
/// the same number of entries with the same primary keys, prompts,
/// responses and creation instants, in the same order. No row is refused on
/// the way.
pub proof fn lemma_export_round_trip(s: Seq<EntryView>, next_id: int, sync_ids: Seq<Seq<char>>)
    requires
        valid_store(s, next_id),
        sync_ids.len() == s.len(),
        fresh_sync_ids(sync_ids),
    ensures
        imported(exported_entries(s), sync_ids, s.len()).len() == s.len(),
        exported_entries(imported(exported_entries(s), sync_ids, s.len())) == exported_entries(s),
        forall|n: nat|
            0 < n <= s.len() ==> restore_rejection(
                #[trigger] imported(exported_entries(s), sync_ids, (n - 1) as nat),
                restored_entry(exported_entries(s)[n - 1], sync_ids[n - 1]),
            ) is None,
{
    let rows = exported_entries(s);
    let back = imported(rows, sync_ids, s.len());
    lemma_imported_prefix(s, next_id, sync_ids, s.len());
    assert forall|i: int| 0 <= i < s.len() implies exported_entry(#[trigger] back[i])
        == exported_entry(s[i]) by {}
    assert(exported_entries(back) =~= rows);
    assert forall|n: nat| 0 < n <= s.len() implies restore_rejection(
        #[trigger] imported(rows, sync_ids, (n - 1) as nat),
        restored_entry(rows[n - 1], sync_ids[n - 1]),
    ) is None by {
        lemma_imported_prefix(s, next_id, sync_ids, n);
    }
}

impl Database {
    /// Takes in one exported row under the sync identifier `sync_id`.
    /// Nothing changes when the row is refused.
    pub fn import_entry(&mut self, row: &ExportedEntry, sync_id: &str) -> (r: Result<
        (),
        StoreError,
    >)
        requires
            old(self).wf(),
        ensures
            final(self).wf(),
            match r {
                Ok(_) => {
                    &&& restore_rejection(old(self)@, restored_entry(row@, sync_id@)) is None
                    &&& final(self)@ == with_entry(old(self)@, restored_entry(row@, sync_id@))
                    &&& final(self).next_id() == if row.id >= old(self).next_id() {
                        row.id + 1
                    } else {
                        old(self).next_id()
                    }
                },
                Err(err) => {
                    &&& restore_rejection(old(self)@, restored_entry(row@, sync_id@)) == Some(err)
                    &&& final(self)@ == old(self)@
                    &&& final(self).next_id() == old(self).next_id()
                },
            },
    {
        let entry = CreativityEntry {
            id: row.id,
            sync_id: sync_id.to_owned(),
            created_at: row.created_at,
            modified_at: row.created_at,
            prompt: row.prompt.clone(),
            response: row.response.clone(),
            drawing_vector: None,
            drawing_preview: None,
            metadata: Vec::new(),
        };
        assert(entry@.metadata =~= Seq::empty());
        assert(entry@ == restored_entry(row@, sync_id@));
        self.restore_entry(entry)
    }
}

} // verus!
