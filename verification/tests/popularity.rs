use clickpack_db::database::{Database, Status};
use clickpack_db::endpoints::{downloads_endpoint, inc_endpoint, DATABASE_URL, TEMP_DIRNAME};
use clickpack_db::entry::Entry;
use clickpack_db::panel::ClickpackDb;
use clickpack_db::popularity::merge_counts;
use indexmap::IndexMap;

fn plain() -> Entry {
    Entry::new(1, 2, false, String::from("u"))
}

fn two_entries() -> Database {
    let mut db = Database::new(5, String::from("https://hiatus.example"));
    db.insert(String::from("a"), plain());
    db.insert(String::from("b"), plain());
    db
}

#[test]
fn popularity_merge_scenario() {
    let mut db = two_entries();
    db.merge_downloads(&vec![(String::from("a"), 5), (String::from("c"), 9)]);
    assert_eq!(db.entries["a"].downloads, 5);
    assert_eq!(db.entries["a"].downloads_str, "5");
    assert_eq!(db.entries["b"].downloads, 0);
    assert_eq!(db.entries["b"].downloads_str, "");
    assert!(!db.entries.contains_key("c"));
    assert_eq!(db.entries.len(), 2);
    let order: Vec<&String> = db.entries.keys().collect();
    assert_eq!(order, ["a", "b"]);
}

#[test]
fn zero_counts_are_skipped() {
    let mut db = two_entries();
    db.merge_downloads(&vec![(String::from("a"), 7)]);
    db.merge_downloads(&vec![(String::from("a"), 0), (String::from("b"), 0)]);
    assert_eq!(db.entries["a"].downloads, 7);
    assert_eq!(db.entries["a"].downloads_str, "7");
    assert_eq!(db.entries["b"].downloads, 0);
}

#[test]
fn last_nonzero_count_wins() {
    let mut db = two_entries();
    db.merge_downloads(&vec![
        (String::from("a"), 3),
        (String::from("a"), 12),
        (String::from("a"), 0),
    ]);
    assert_eq!(db.entries["a"].downloads, 12);
    assert_eq!(db.entries["a"].downloads_str, "12");
}

#[test]
fn merge_keeps_other_fields() {
    let mut db = Database::new(0, String::new());
    db.insert(String::from("a"), Entry::new(11, 22, true, String::from("https://x/a.zip")));
    db.merge_downloads(&vec![(String::from("a"), 4_000_000_000)]);
    let a = &db.entries["a"];
    assert_eq!(a.size, 11);
    assert_eq!(a.uncompressed_size, 22);
    assert!(a.has_noise);
    assert_eq!(a.url, "https://x/a.zip");
    assert_eq!(a.downloads_str, "4000000000");
    assert!(!a.is_downloaded());
}

#[test]
fn merge_counts_on_a_bare_map() {
    let mut map = IndexMap::new();
    map.insert(String::from("only"), plain());
    merge_counts(&mut map, &vec![(String::from("only"), 1), (String::from("other"), 2)]);
    assert_eq!(map["only"].downloads, 1);
    assert_eq!(map.len(), 1);
}

fn with_two_entries() -> ClickpackDb {
    let mut panel = ClickpackDb::new(false);
    panel.db = two_entries();
    panel.status = Status::Loaded { did_filter: true };
    panel
}

#[test]
fn response_body_is_read_and_merged() {
    let mut panel = with_two_entries();
    let read = panel.load_hiatus(Ok(br#"{"a": 5, "c": 9, "b": 0}"#.to_vec()));
    assert!(read);
    assert_eq!(panel.db.entries["a"].downloads, 5);
    assert_eq!(panel.db.entries["a"].downloads_str, "5");
    assert_eq!(panel.db.entries["b"].downloads, 0);
    assert_eq!(panel.db.entries.len(), 2);
}

#[test]
fn unreadable_body_changes_nothing() {
    for body in [&b"not json"[..], &b"[1, 2]"[..], &br#"{"a": -1}"#[..], &br#"{"a": "5"}"#[..], &b""[..], &br#"{"a": 5} x"#[..], &br#"{"a": 4294967296}"#[..]] {
        let mut panel = with_two_entries();
        assert!(!panel.load_hiatus(Ok(body.to_vec())));
        assert_eq!(panel.db.entries["a"].downloads, 0);
        assert_eq!(panel.db.entries["b"].downloads, 0);
        assert!(matches!(panel.status, Status::Loaded { did_filter: true }));
    }
}

#[test]
fn repeated_name_in_a_body_takes_the_last_count() {
    let mut panel = with_two_entries();
    assert!(panel.load_hiatus(Ok(br#"{"a": 5, "a": 8}"#.to_vec())));
    assert_eq!(panel.db.entries["a"].downloads, 8);
    assert_eq!(panel.db.entries["a"].downloads_str, "8");
}

#[test]
fn merging_counts_marks_the_view_stale() {
    let mut panel = with_two_entries();
    panel.merge_downloads(&vec![(String::from("b"), 2)]);
    assert_eq!(panel.db.entries["b"].downloads, 2);
    assert!(matches!(panel.status, Status::Loaded { did_filter: false }));
}

#[test]
fn load_hiatus_merges_and_marks_the_view_stale() {
    let mut panel = ClickpackDb::new(false);
    panel.db = two_entries();
    panel.status = Status::Loaded { did_filter: true };
    assert!(panel.load_hiatus(Ok(br#"{"b": 3}"#.to_vec())));
    assert_eq!(panel.db.entries["b"].downloads, 3);
    assert!(matches!(panel.status, Status::Loaded { did_filter: false }));
}

#[test]
fn load_hiatus_failures_change_nothing() {
    let mut panel = ClickpackDb::new(false);
    panel.db = two_entries();
    panel.status = Status::Loaded { did_filter: true };
    assert!(!panel.load_hiatus(Err(String::from("timeout"))));
    assert!(matches!(panel.status, Status::Loaded { did_filter: true }));
    assert!(!panel.load_hiatus(Ok(b"<html>".to_vec())));
    assert!(matches!(panel.status, Status::Loaded { did_filter: true }));
    assert_eq!(panel.db.entries["b"].downloads, 0);
}

#[test]
fn popularity_reorders_the_view_on_the_next_cycle() {
    let mut panel = ClickpackDb::new(false);
    panel.load_database(Ok(two_entries()));
    panel.show();
    let before: Vec<String> = panel.filtered_entries.keys().cloned().collect();
    assert_eq!(before, ["a", "b"]);
    panel.load_hiatus(Ok(br#"{"b": 3}"#.to_vec()));
    panel.show();
    let after: Vec<String> = panel.filtered_entries.keys().cloned().collect();
    assert_eq!(after, ["b", "a"]);
}

#[test]
fn endpoint_addresses() {
    assert_eq!(downloads_endpoint("https://hiatus.zeo.lol"), "https://hiatus.zeo.lol/downloads/all");
    assert_eq!(downloads_endpoint(""), "/downloads/all");
    assert_eq!(inc_endpoint("https://hiatus.zeo.lol", "pack"), "https://hiatus.zeo.lol/inc/pack");
    assert_eq!(
        inc_endpoint("https://h", "my pack/\u{e4}+1"),
        "https://h/inc/my%20pack%2F%C3%A4%2B1"
    );
    assert_eq!(inc_endpoint("h", "A-z_0.9~"), "h/inc/A-z_0.9~");
    assert_eq!(inc_endpoint("h", "\u{1f3a7}"), "h/inc/%F0%9F%8E%A7");
    assert_eq!(inc_endpoint("h", ""), "h/inc/");
}

#[test]
fn fixed_names() {
    assert_eq!(DATABASE_URL, "https://raw.githubusercontent.com/zeozeozeo/clickpack-db/main/db.json");
    assert_eq!(TEMP_DIRNAME, "zcb-clickpackdb");
}
