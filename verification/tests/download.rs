use clickpack_db::database::Database;
use clickpack_db::entry::{DownloadStatus, Entry};
use clickpack_db::panel::{ClickpackDb, RowAction, RowEvent};

fn plain(url: &str) -> Entry {
    Entry::new(1, 2, false, String::from(url))
}

fn loaded(names: &[&str], live: bool) -> ClickpackDb {
    let mut db = Database::new(1, String::from("https://hiatus.example"));
    for name in names {
        db.insert(String::from(*name), plain("u"));
    }
    let mut panel = ClickpackDb::new(live);
    panel.load_database(Ok(db));
    panel.show();
    panel
}

fn downloaded(path: &str, do_select: bool) -> DownloadStatus {
    DownloadStatus::Downloaded { path: String::from(path), do_select }
}

#[test]
fn successful_report_keeps_the_selection_request() {
    for do_select in [false, true] {
        match DownloadStatus::from_report(Ok(()), String::from("/packs/a"), do_select) {
            DownloadStatus::Downloaded { path, do_select: kept } => {
                assert_eq!(path, "/packs/a");
                assert_eq!(kept, do_select);
            },
            _ => panic!("a successful report did not give a downloaded state"),
        }
    }
}

#[test]
fn failing_report_keeps_the_message() {
    let message = "zip: invalid archive \u{2014} \"x\"\n";
    match DownloadStatus::from_report(Err(String::from(message)), String::from("/packs/a"), true) {
        DownloadStatus::Error(kept) => assert_eq!(kept, message),
        _ => panic!("a failing report did not give an error state"),
    }
}

#[test]
fn state_machine_success_path() {
    let mut panel = loaded(&["a"], false);
    let (name, entry) = panel.row(0).unwrap();
    assert!(matches!(entry.dwn_status, DownloadStatus::NotDownloaded));
    panel.manage_row(&entry, &name, RowEvent::Download(vec![]));
    assert!(matches!(panel.db.entries["a"].dwn_status, DownloadStatus::Downloading));
    panel.download_entry(entry, name, Ok(()), String::from("/tmp/zcb/a"), true);
    assert!(matches!(panel.db.entries["a"].dwn_status, DownloadStatus::Downloading));
    panel.show();
    for map in [&panel.db.entries, &panel.filtered_entries] {
        match &map["a"].dwn_status {
            DownloadStatus::Downloaded { path, do_select } => {
                assert_eq!(path, "/tmp/zcb/a");
                assert!(do_select);
            },
            _ => panic!("the entry is not downloaded"),
        }
    }
}

#[test]
fn state_machine_failure_path() {
    let mut panel = loaded(&["a"], false);
    let (name, entry) = panel.row(0).unwrap();
    panel.manage_row(&entry, &name, RowEvent::DownloadTo(String::from("/d")));
    panel.download_entry(entry, name, Err(String::from("HTTP 404")), String::from("/d"), false);
    panel.show();
    match &panel.db.entries["a"].dwn_status {
        DownloadStatus::Error(message) => assert_eq!(message, "HTTP 404"),
        _ => panic!("the entry is not in the error state"),
    }
    assert!(matches!(panel.filtered_entries["a"].dwn_status, DownloadStatus::Error(_)));
}

#[test]
fn report_carries_the_entry_it_was_started_with() {
    let mut panel = ClickpackDb::new(false);
    let mut entry = Entry::new(7, 8, true, String::from("https://x/p.zip"));
    entry.set_downloads(41);
    panel.download_entry(entry, String::from("p"), Ok(()), String::from("/p"), false);
    let posted = &panel.pending_update["p"];
    assert_eq!(posted.size, 7);
    assert_eq!(posted.uncompressed_size, 8);
    assert!(posted.has_noise);
    assert_eq!(posted.url, "https://x/p.zip");
    assert_eq!(posted.downloads, 41);
    assert_eq!(posted.downloads_str, "41");
    assert!(posted.is_downloaded());
}

#[test]
fn later_report_replaces_an_earlier_one_in_place() {
    let mut panel = ClickpackDb::new(false);
    panel.download_entry(plain("u"), String::from("a"), Err(String::from("first")), String::from("/a"), false);
    panel.download_entry(plain("u"), String::from("b"), Ok(()), String::from("/b"), false);
    panel.download_entry(plain("u"), String::from("a"), Ok(()), String::from("/a"), false);
    let order: Vec<&String> = panel.pending_update.keys().collect();
    assert_eq!(order, ["a", "b"]);
    assert!(panel.pending_update["a"].is_downloaded());
}

#[test]
fn selection_request_is_consumed_once() {
    let mut panel = loaded(&["a"], false);
    panel.set_status("a", downloaded("/packs/a", true));
    let (name, entry) = panel.row(0).unwrap();
    assert!(matches!(panel.manage_row(&entry, &name, RowEvent::Idle), RowAction::Nothing));
    assert_eq!(panel.select_clickpack.as_deref(), Some("/packs/a"));
    for map in [&panel.db.entries, &panel.filtered_entries] {
        match &map["a"].dwn_status {
            DownloadStatus::Downloaded { path, do_select } => {
                assert_eq!(path, "/packs/a");
                assert!(!do_select);
            },
            _ => panic!("the entry is not downloaded"),
        }
    }
    panel.select_clickpack = None;
    let (name, entry) = panel.row(0).unwrap();
    panel.manage_row(&entry, &name, RowEvent::Idle);
    assert!(panel.select_clickpack.is_none());
}

#[test]
fn live_host_waits_for_the_click() {
    let mut panel = loaded(&["a"], true);
    panel.set_status("a", downloaded("/packs/a", true));
    let (name, entry) = panel.row(0).unwrap();
    panel.manage_row(&entry, &name, RowEvent::Idle);
    assert!(panel.select_clickpack.is_none());
    assert!(matches!(panel.db.entries["a"].dwn_status, DownloadStatus::Downloaded { do_select: true, .. }));
    panel.manage_row(&entry, &name, RowEvent::Select);
    assert_eq!(panel.select_clickpack.as_deref(), Some("/packs/a"));
    assert!(matches!(panel.db.entries["a"].dwn_status, DownloadStatus::Downloaded { do_select: false, .. }));
}

#[test]
fn click_selects_a_pack_without_a_request() {
    let mut panel = loaded(&["a"], false);
    panel.set_status("a", downloaded("/packs/a", false));
    let (name, entry) = panel.row(0).unwrap();
    panel.manage_row(&entry, &name, RowEvent::Idle);
    assert!(panel.select_clickpack.is_none());
    panel.manage_row(&entry, &name, RowEvent::Select);
    assert_eq!(panel.select_clickpack.as_deref(), Some("/packs/a"));
    assert!(matches!(panel.db.entries["a"].dwn_status, DownloadStatus::Downloaded { do_select: false, .. }));
}

#[test]
fn delete_queues_the_directory_and_resets_the_entry() {
    let mut panel = loaded(&["a", "b"], true);
    panel.set_status("a", downloaded("/packs/a", false));
    let (name, entry) = panel.row(0).unwrap();
    assert!(matches!(panel.manage_row(&entry, &name, RowEvent::Delete), RowAction::Nothing));
    assert_eq!(panel.pending_clickpack_delete, ["/packs/a"]);
    assert!(matches!(panel.db.entries["a"].dwn_status, DownloadStatus::NotDownloaded));
    assert!(matches!(panel.filtered_entries["a"].dwn_status, DownloadStatus::NotDownloaded));
    assert!(panel.select_clickpack.is_none());
    let frame = panel.show();
    assert_eq!(frame.remove_dirs, ["/packs/a"]);
    assert!(panel.pending_clickpack_delete.is_empty());
}

#[test]
fn delete_takes_precedence_over_a_selection_request() {
    let mut panel = loaded(&["a"], false);
    panel.set_status("a", downloaded("/packs/a", true));
    let (name, entry) = panel.row(0).unwrap();
    panel.manage_row(&entry, &name, RowEvent::Delete);
    assert!(panel.select_clickpack.is_none());
    assert_eq!(panel.pending_clickpack_delete, ["/packs/a"]);
    assert!(matches!(panel.db.entries["a"].dwn_status, DownloadStatus::NotDownloaded));
}

#[test]
fn download_requests_on_a_downloaded_row_select_only_on_request() {
    let mut panel = loaded(&["a"], true);
    panel.set_status("a", downloaded("/packs/a", false));
    let (name, entry) = panel.row(0).unwrap();
    assert!(matches!(panel.manage_row(&entry, &name, RowEvent::DownloadTo(String::from("/d"))), RowAction::Nothing));
    assert!(matches!(panel.manage_row(&entry, &name, RowEvent::Download(vec![])), RowAction::Nothing));
    assert!(panel.select_clickpack.is_none());
    assert!(panel.db.entries["a"].is_downloaded());
}
