use estrange::clock::{choose_instant, day_number, stored_instant, timestamp_text};
use estrange::entry::{sync_id_from, is_sync_id_text, CreativityEntry, StorageFault, StoreError};
use estrange::queries::ExportedEntry;
use estrange::store::Database;

const ID_A: &str = "0123456789abcdef0123456789abcdef";
const ID_B: &str = "00112233445566778899aabbccddeeff";
const ID_C: &str = "ffffffffffffffffffffffffffffffff";

fn sid(n: u8) -> String {
    sync_id_from(&vec![n; 16]).unwrap()
}

fn row(id: i64, sync_id: &str, created_at: i64) -> CreativityEntry {
    CreativityEntry {
        id,
        sync_id: sync_id.to_string(),
        created_at,
        modified_at: created_at,
        prompt: "p".to_string(),
        response: "r".to_string(),
        drawing_vector: None,
        drawing_preview: None,
        metadata: Vec::new(),
    }
}

#[test]
fn new_store_is_empty() {
    let db = Database::new();
    assert_eq!(db.len(), 0);
    assert!(db.list_entries(10).is_empty());
    assert!(db.search_entries("x").is_empty());
}

#[test]
fn add_entry_assigns_keys_in_order() {
    let mut db = Database::new();
    let a = db.add_entry("first prompt", "first response", ID_A, 1_700_000_000).unwrap();
    let b = db.add_entry("second prompt", "second response", ID_B, 1_700_000_100).unwrap();
    assert_eq!(a.id, 1);
    assert_eq!(b.id, 2);
    assert_eq!(a.created_at, 1_700_000_000);
    assert_eq!(a.modified_at, 1_700_000_000);
    assert_eq!(a.sync_id, ID_A);
    assert_eq!(a.prompt, "first prompt");
    assert_eq!(a.response, "first response");
    assert_eq!(a.drawing_vector, None);
    assert_eq!(a.drawing_preview, None);
    assert!(a.metadata.is_empty());
    assert_eq!(db.len(), 2);
}

#[test]
fn scenario_entry_is_stored_and_listed() {
    let mut db = Database::new();
    let now = chrono::Utc::now().timestamp();
    let id = sid(0x5a);
    let e = db
        .add_entry("Describe a color that doesn't exist", "Viridian-grey, the color of...", &id, now)
        .unwrap();
    assert!(e.id >= 1);
    assert_eq!(e.sync_id.len(), 32);
    assert!(e.sync_id.chars().all(|c| c.is_ascii_digit() || ('a'..='f').contains(&c)));
    assert_eq!(e.created_at, now);
    assert_eq!(e.modified_at, now);
    let listed = db.list_entries(1);
    assert_eq!(listed.len(), 1);
    assert_eq!(listed[0].id, e.id);
    assert_eq!(listed[0].prompt, "Describe a color that doesn't exist");
    assert_eq!(listed[0].response, "Viridian-grey, the color of...");
    assert_eq!(listed[0].sync_id, e.sync_id);
}

#[test]
fn empty_response_is_rejected() {
    let mut db = Database::new();
    let r = db.add_entry("a prompt", "", ID_A, 1_700_000_000);
    assert_eq!(r.unwrap_err(), StoreError::EmptyInput);
    assert_eq!(db.len(), 0);
}

#[test]
fn empty_prompt_is_rejected() {
    let mut db = Database::new();
    let r = db.add_entry("", "a response", ID_A, 1_700_000_000);
    assert_eq!(r.unwrap_err(), StoreError::EmptyInput);
    assert_eq!(db.len(), 0);
}

#[test]
fn empty_input_is_reported_before_any_storage_fault() {
    let mut db = Database::new();
    let r = db.add_entry("p", "", "not-an-id", -5);
    assert_eq!(r.unwrap_err(), StoreError::EmptyInput);
}

#[test]
fn timestamp_out_of_range_is_rejected() {
    let mut db = Database::new();
    let r = db.add_entry("p", "r", ID_A, -1);
    assert_eq!(r.unwrap_err(), StoreError::Storage(StorageFault::TimestampOutOfRange));
    let r = db.add_entry("p", "r", ID_A, 253_402_300_800);
    assert_eq!(r.unwrap_err(), StoreError::Storage(StorageFault::TimestampOutOfRange));
    assert!(db.add_entry("p", "r", ID_A, 253_402_300_799).is_ok());
    assert!(db.add_entry("p", "r", ID_B, 0).is_ok());
}

#[test]
fn malformed_sync_id_is_rejected() {
    let mut db = Database::new();
    for bad in ["", "abc", "0123456789ABCDEF0123456789ABCDEF", "0123456789abcdef0123456789abcdeg",
        "0123456789abcdef0123456789abcdef0"] {
        let r = db.add_entry("p", "r", bad, 1_700_000_000);
        assert_eq!(r.unwrap_err(), StoreError::Storage(StorageFault::MalformedSyncId), "{:?}", bad);
    }
    assert_eq!(db.len(), 0);
}

#[test]
fn duplicate_sync_id_is_rejected() {
    let mut db = Database::new();
    db.add_entry("p", "r", ID_A, 1_700_000_000).unwrap();
    let r = db.add_entry("prompt 2", "response 2", ID_A, 1_700_000_001);
    assert_eq!(r.unwrap_err(), StoreError::Storage(StorageFault::DuplicateSyncId));
    assert_eq!(db.len(), 1);
    assert!(db.has_sync_id(ID_A));
    assert!(!db.has_sync_id(ID_B));
}

#[test]
fn sync_ids_stay_unique_over_many_insertions() {
    let mut db = Database::new();
    let mut n: u8 = 0;
    while n < 200 {
        let id = sid(n % 50);
        let r = db.add_entry("p", "r", &id, 1_700_000_000 + n as i64);
        assert_eq!(r.is_ok(), n < 50, "{}", n);
        n += 1;
    }
    let all = db.list_entries(u32::MAX);
    assert_eq!(all.len(), 50);
    for i in 0..all.len() {
        for j in (i + 1)..all.len() {
            assert_ne!(all[i].sync_id, all[j].sync_id);
            assert_ne!(all[i].id, all[j].id);
        }
    }
}

#[test]
fn sync_id_from_needs_sixteen_bytes() {
    assert_eq!(sync_id_from(&vec![0u8; 15]), None);
    assert_eq!(sync_id_from(&vec![0u8; 17]), None);
    assert_eq!(
        sync_id_from(&vec![0, 1, 2, 3, 4, 5, 6, 7, 8, 9, 10, 11, 12, 13, 14, 255]).unwrap(),
        "000102030405060708090a0b0c0d0eff"
    );
    assert!(is_sync_id_text(&sid(0xab)));
    assert!(!is_sync_id_text("xyz"));
}

#[test]
fn list_entries_is_newest_first_and_bounded() {
    let mut db = Database::new();
    db.add_entry("prompt 1", "response 1", &sid(1), 300).unwrap();
    db.add_entry("prompt 2", "response 2", &sid(2), 100).unwrap();
    db.add_entry("prompt 3", "response 3", &sid(3), 200).unwrap();
    db.add_entry("prompt 4", "response 4", &sid(4), 300).unwrap();
    let all = db.list_entries(10);
    let order: Vec<i64> = all.iter().map(|e| e.id).collect();
    assert_eq!(order, vec![4, 1, 3, 2]);
    for w in all.windows(2) {
        assert!(w[0].created_at >= w[1].created_at);
    }
    let two = db.list_entries(2);
    let order: Vec<i64> = two.iter().map(|e| e.id).collect();
    assert_eq!(order, vec![4, 1]);
    assert!(db.list_entries(0).is_empty());
    assert_eq!(db.list_entries(4).len(), 4);
    assert_eq!(db.list_entries(5).len(), 4);
}

#[test]
fn list_entries_can_be_asked_again() {
    let mut db = Database::new();
    db.add_entry("prompt 1", "response 1", &sid(1), 10).unwrap();
    let first = db.list_entries(5);
    db.add_entry("prompt 2", "response 2", &sid(2), 20).unwrap();
    let second = db.list_entries(5);
    assert_eq!(first.len(), 1);
    assert_eq!(second.len(), 2);
    assert_eq!(second[0].id, 2);
}

#[test]
fn search_matches_prompt_or_response_without_case() {
    let mut db = Database::new();
    db.add_entry("Describe a Color", "Viridian-grey", &sid(1), 100).unwrap();
    db.add_entry("A sound", "the COLOR of noise", &sid(2), 200).unwrap();
    db.add_entry("A smell", "petrichor", &sid(3), 300).unwrap();
    let hits = db.search_entries("color");
    let ids: Vec<i64> = hits.iter().map(|e| e.id).collect();
    assert_eq!(ids, vec![2, 1]);
    let hits = db.search_entries("PETR");
    let ids: Vec<i64> = hits.iter().map(|e| e.id).collect();
    assert_eq!(ids, vec![3]);
    assert!(db.search_entries("absent").is_empty());
    assert_eq!(db.search_entries("").len(), 3);
}

#[test]
fn search_treats_wildcard_characters_as_text() {
    let mut db = Database::new();
    db.add_entry("100% sure", "a_b", &sid(1), 100).unwrap();
    db.add_entry("plain", "axb", &sid(2), 200).unwrap();
    let ids: Vec<i64> = db.search_entries("%").iter().map(|e| e.id).collect();
    assert_eq!(ids, vec![1]);
    let ids: Vec<i64> = db.search_entries("a_b").iter().map(|e| e.id).collect();
    assert_eq!(ids, vec![1]);
}

#[test]
fn stats_of_an_empty_store_use_the_placeholder() {
    let db = Database::new();
    let (total, first, last) = db.get_stats().unwrap();
    assert_eq!(total, 0);
    assert_eq!(first, "No entries yet");
    assert_eq!(last, "No entries yet");
}

#[test]
fn stats_show_first_and_last_creation() {
    let mut db = Database::new();
    db.add_entry("p", "r", &sid(1), 1_431_648_000).unwrap();
    db.add_entry("p", "r", &sid(2), 1_704_067_199).unwrap();
    db.add_entry("p", "r", &sid(3), 0).unwrap();
    let (total, first, last) = db.get_stats().unwrap();
    assert_eq!(total, 3);
    assert_eq!(first, "1970-01-01 00:00:00 UTC");
    assert_eq!(last, "2023-12-31 23:59:59 UTC");
}

#[test]
fn timestamp_text_formats_valid_instants_only() {
    assert_eq!(timestamp_text(1_431_648_000).unwrap(), "2015-05-15 00:00:00 UTC");
    assert_eq!(timestamp_text(253_402_300_799).unwrap(), "9999-12-31 23:59:59 UTC");
    assert_eq!(timestamp_text(-1), None);
    assert_eq!(timestamp_text(253_402_300_800), None);
}

#[test]
fn day_number_rounds_toward_earlier_days() {
    assert_eq!(day_number(0), 0);
    assert_eq!(day_number(86_399), 0);
    assert_eq!(day_number(86_400), 1);
    assert_eq!(day_number(-1), -1);
    assert_eq!(day_number(-86_400), -1);
    assert_eq!(day_number(-86_401), -2);
    assert_eq!(day_number(i64::MIN), i64::MIN.div_euclid(86_400));
    assert_eq!(day_number(i64::MAX), i64::MAX / 86_400);
    assert_eq!(day_number(1_431_648_000), 16_570);
}

#[test]
fn export_lists_every_entry_oldest_first() {
    let mut db = Database::new();
    db.add_entry("prompt 1", "response 1", &sid(1), 300).unwrap();
    db.add_entry("prompt 2", "response 2", &sid(2), 100).unwrap();
    db.add_entry("prompt 3", "response 3", &sid(3), 200).unwrap();
    let doc = db.export_all(1_700_000_000);
    assert_eq!(doc.export_date, 1_700_000_000);
    assert_eq!(doc.total_entries, 3);
    let ids: Vec<i64> = doc.entries.iter().map(|e| e.id).collect();
    assert_eq!(ids, vec![2, 3, 1]);
    assert_eq!(doc.entries[0].prompt, "prompt 2");
    assert_eq!(doc.entries[0].response, "response 2");
    assert_eq!(doc.entries[0].created_at, 100);
}

#[test]
fn export_is_the_same_when_asked_twice() {
    let mut db = Database::new();
    db.add_entry("prompt 1", "response 1", &sid(1), 300).unwrap();
    db.add_entry("prompt 2", "response 2", &sid(2), 100).unwrap();
    let a = db.export_all(5);
    let b = db.export_all(5);
    assert_eq!(a.total_entries, b.total_entries);
    for (x, y) in a.entries.iter().zip(b.entries.iter()) {
        assert_eq!((x.id, &x.prompt, &x.response, x.created_at), (y.id, &y.prompt, &y.response, y.created_at));
    }
}

#[test]
fn export_of_an_empty_store_has_no_entries() {
    let db = Database::new();
    let doc = db.export_all(1_700_000_000);
    assert_eq!(doc.export_date, 1_700_000_000);
    assert_eq!(doc.total_entries, 0);
    assert!(doc.entries.is_empty());
}

#[test]
fn export_then_import_reproduces_the_entries() {
    let mut db = Database::new();
    db.add_entry("prompt 1", "response 1", &sid(1), 300).unwrap();
    db.add_entry("prompt 2", "response 2", &sid(2), 100).unwrap();
    db.add_entry("prompt 3", "response 3", &sid(3), 200).unwrap();
    db.add_entry("prompt 4", "response 4", &sid(4), 300).unwrap();
    let doc = db.export_all(1_000);
    let mut back = Database::new();
    for (i, e) in doc.entries.iter().enumerate() {
        back.import_entry(e, &sid(100 + i as u8)).unwrap();
    }
    let again = back.export_all(1_000);
    assert_eq!(again.total_entries, doc.total_entries);
    assert_eq!(again.entries.len(), doc.entries.len());
    for (x, y) in doc.entries.iter().zip(again.entries.iter()) {
        assert_eq!(x.id, y.id);
        assert_eq!(x.prompt, y.prompt);
        assert_eq!(x.response, y.response);
        assert_eq!(x.created_at, y.created_at);
    }
    let next = back.add_entry("prompt 5", "response 5", &sid(9), 400).unwrap();
    assert_eq!(next.id, 5);
}

#[test]
fn import_refuses_a_row_without_text() {
    let mut db = Database::new();
    let bad = ExportedEntry { id: 1, prompt: "p".to_string(), response: String::new(), created_at: 5 };
    assert_eq!(db.import_entry(&bad, ID_A).unwrap_err(), StoreError::EmptyInput);
    assert_eq!(db.len(), 0);
}

#[test]
fn restore_keeps_keys_and_order() {
    let mut db = Database::new();
    db.restore_entry(row(7, ID_A, 500)).unwrap();
    db.restore_entry(row(3, ID_B, 900)).unwrap();
    db.restore_entry(row(5, ID_C, 500)).unwrap();
    let ids: Vec<i64> = db.list_entries(10).iter().map(|e| e.id).collect();
    assert_eq!(ids, vec![3, 7, 5]);
    assert!(db.has_id(7));
    assert!(!db.has_id(8));
    let e = db.add_entry("p", "r", &sid(1), 100).unwrap();
    assert_eq!(e.id, 8);
    assert_eq!(db.entry(0).id, 8);
}

#[test]
fn restore_refuses_what_would_break_the_store() {
    let mut db = Database::new();
    db.restore_entry(row(7, ID_A, 500)).unwrap();
    assert_eq!(
        db.restore_entry(row(7, ID_B, 600)).unwrap_err(),
        StoreError::Storage(StorageFault::InvalidId)
    );
    assert_eq!(
        db.restore_entry(row(0, ID_B, 600)).unwrap_err(),
        StoreError::Storage(StorageFault::InvalidId)
    );
    assert_eq!(
        db.restore_entry(row(8, ID_A, 600)).unwrap_err(),
        StoreError::Storage(StorageFault::DuplicateSyncId)
    );
    assert_eq!(
        db.restore_entry(row(8, "short", 600)).unwrap_err(),
        StoreError::Storage(StorageFault::MalformedSyncId)
    );
    assert_eq!(
        db.restore_entry(row(8, ID_B, -1)).unwrap_err(),
        StoreError::Storage(StorageFault::TimestampOutOfRange)
    );
    assert_eq!(
        db.restore_entry(row(i64::MAX, ID_B, 600)).unwrap_err(),
        StoreError::Storage(StorageFault::IdentifiersExhausted)
    );
    let mut empty = row(9, ID_B, 600);
    empty.prompt = String::new();
    assert_eq!(db.restore_entry(empty).unwrap_err(), StoreError::EmptyInput);
    assert_eq!(db.len(), 1);
}

#[test]
fn keys_run_out_at_the_largest_value() {
    let mut db = Database::new();
    db.restore_entry(row(i64::MAX - 1, ID_A, 500)).unwrap();
    let r = db.add_entry("p", "r", ID_B, 600);
    assert_eq!(r.unwrap_err(), StoreError::Storage(StorageFault::IdentifiersExhausted));
    assert_eq!(db.len(), 1);
}

#[test]
fn duplicate_copies_every_field() {
    let mut e = row(4, ID_A, 77);
    e.drawing_vector = Some("vec".to_string());
    e.metadata = vec![("k".to_string(), "v".to_string())];
    let d = e.duplicate();
    assert_eq!(d.id, 4);
    assert_eq!(d.sync_id, ID_A);
    assert_eq!(d.created_at, 77);
    assert_eq!(d.drawing_vector.as_deref(), Some("vec"));
    assert_eq!(d.drawing_preview, None);
    assert_eq!(d.metadata, vec![("k".to_string(), "v".to_string())]);
    assert!(e.comes_before(78, 1));
    assert!(e.comes_before(77, 5));
    assert!(!e.comes_before(77, 4));
    assert!(!e.comes_before(76, 9));
}

#[test]
fn stored_instant_reads_both_forms() {
    assert_eq!(stored_instant("2015-05-15 00:00:00 UTC"), Some(1_431_648_000));
    assert_eq!(stored_instant("2015-05-15 00:00:00"), Some(1_431_648_000));
    assert_eq!(stored_instant("1970-01-01 00:00:01 UTC"), Some(1));
    assert_eq!(stored_instant("9999-12-31 23:59:59 UTC"), Some(253_402_300_799));
    assert_eq!(stored_instant("2015-05-15"), None);
    assert_eq!(stored_instant("2015-13-15 00:00:00 UTC"), None);
    assert_eq!(stored_instant(""), None);
    assert_eq!(stored_instant("yesterday"), None);
}

#[test]
fn stored_instant_reads_back_what_is_shown() {
    for t in [0i64, 59, 86_399, 86_400, 1_431_648_000, 1_704_067_199, 253_402_300_799] {
        assert_eq!(stored_instant(&timestamp_text(t).unwrap()), Some(t));
    }
}

#[test]
fn choose_instant_prefers_the_reading_with_zone() {
    assert_eq!(choose_instant(Some(1), Some(2)), Some(1));
    assert_eq!(choose_instant(Some(1), None), Some(1));
    assert_eq!(choose_instant(None, Some(2)), Some(2));
    assert_eq!(choose_instant(None, None), None);
}

#[test]
fn import_moves_the_next_key_past_the_imported_one() {
    let mut db = Database::new();
    let row = ExportedEntry { id: 41, prompt: "p".to_string(), response: "r".to_string(), created_at: 5 };
    db.import_entry(&row, ID_A).unwrap();
    let e = db.add_entry("q", "s", ID_B, 6).unwrap();
    assert_eq!(e.id, 42);
}
