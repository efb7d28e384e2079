use clickpack_db::database::Database;
use clickpack_db::entry::{DownloadStatus, Entry};
use clickpack_db::mailbox::drain;
use clickpack_db::panel::ClickpackDb;
use clickpack_db::tags::Tags;
use indexmap::IndexMap;

fn plain(url: &str) -> Entry {
    Entry::new(1, 2, false, String::from(url))
}

fn on_disk(url: &str, path: &str) -> Entry {
    let mut e = plain(url);
    e.dwn_status = DownloadStatus::Downloaded { path: String::from(path), do_select: false };
    e
}

fn names(map: &IndexMap<String, Entry>) -> Vec<String> {
    map.keys().cloned().collect()
}

#[test]
fn pending_update_drain_scenario() {
    let mut panel = ClickpackDb::new(false);
    panel.db.insert(String::from("x"), plain("ux"));
    panel.db.insert(String::from("y"), plain("uy"));
    panel.filtered_entries.insert(String::from("y"), plain("uy"));
    panel.pending_update.insert(String::from("x"), on_disk("ux", "/packs/x"));
    let dirs = panel.update_pending_update();
    assert!(dirs.is_empty());
    assert!(panel.db.entries["x"].is_downloaded());
    assert!(!panel.filtered_entries.contains_key("x"));
    assert_eq!(names(&panel.filtered_entries), ["y"]);
    assert!(panel.pending_update.is_empty());
}

#[test]
fn update_reaches_a_row_that_is_shown() {
    let mut panel = ClickpackDb::new(false);
    panel.db.insert(String::from("x"), plain("ux"));
    panel.db.insert(String::from("y"), plain("uy"));
    panel.update_filtered_entries();
    panel.pending_update.insert(String::from("y"), on_disk("uy", "/packs/y"));
    panel.update_pending_update();
    assert!(panel.db.entries["y"].is_downloaded());
    assert!(panel.filtered_entries["y"].is_downloaded());
    assert!(!panel.filtered_entries["x"].is_downloaded());
    assert_eq!(names(&panel.filtered_entries), ["x", "y"]);
    assert_eq!(names(&panel.db.entries), ["x", "y"]);
}

#[test]
fn update_of_an_unknown_name_joins_the_catalog_at_the_end() {
    let mut catalog = IndexMap::new();
    catalog.insert(String::from("a"), plain("ua"));
    let mut view = catalog.clone();
    let mut updates = IndexMap::new();
    updates.insert(String::from("new"), on_disk("un", "/n"));
    updates.insert(String::from("a"), on_disk("ua", "/a"));
    drain(&mut catalog, &mut view, &updates);
    assert_eq!(names(&catalog), ["a", "new"]);
    assert_eq!(names(&view), ["a"]);
    assert!(catalog["a"].is_downloaded());
    assert!(view["a"].is_downloaded());
    assert!(catalog["new"].is_downloaded());
}

#[test]
fn drain_hands_out_directories_once() {
    let mut panel = ClickpackDb::new(true);
    panel.pending_clickpack_delete.push(String::from("/packs/a"));
    panel.pending_clickpack_delete.push(String::from("/packs/b"));
    assert_eq!(panel.update_pending_update(), ["/packs/a", "/packs/b"]);
    assert!(panel.pending_clickpack_delete.is_empty());
    assert!(panel.update_pending_update().is_empty());
}

#[test]
fn empty_mailbox_changes_nothing() {
    let mut panel = ClickpackDb::new(false);
    panel.db.insert(String::from("x"), plain("ux"));
    panel.update_filtered_entries();
    panel.update_pending_update();
    assert_eq!(names(&panel.db.entries), ["x"]);
    assert_eq!(names(&panel.filtered_entries), ["x"]);
}

#[test]
fn newly_matching_entry_waits_for_the_next_rebuild() {
    let mut panel = ClickpackDb::new(false);
    let mut db = Database::new(0, String::new());
    db.insert(String::from("x"), plain("ux"));
    panel.db = db;
    panel.tags = Tags { noise: false, downloaded: true };
    panel.update_filtered_entries();
    assert!(panel.filtered_entries.is_empty());
    panel.download_entry(plain("ux"), String::from("x"), Ok(()), String::from("/packs/x"), false);
    panel.update_pending_update();
    assert!(panel.db.entries["x"].is_downloaded());
    assert!(panel.filtered_entries.is_empty());
    panel.update_filtered_entries();
    assert_eq!(names(&panel.filtered_entries), ["x"]);
}
