use clickpack_db::database::{Database, Status};
use clickpack_db::entry::{DownloadStatus, Entry};
use clickpack_db::filter::filtered;
use clickpack_db::panel::ClickpackDb;
use clickpack_db::search::{keeps, name_matches, name_score, value_of};
use clickpack_db::tags::Tags;
use fuzzy_matcher::skim::SkimMatcherV2;
use fuzzy_matcher::FuzzyMatcher;
use indexmap::IndexMap;

fn entry(has_noise: bool, downloads: u32, downloaded: bool) -> Entry {
    let mut e = Entry::new(10, 20, has_noise, String::from("https://example.org/p.zip"));
    if downloads != 0 {
        e.set_downloads(downloads);
    }
    if downloaded {
        e.dwn_status = DownloadStatus::Downloaded { path: String::from("/tmp/p"), do_select: false };
    }
    e
}

fn catalog() -> IndexMap<String, Entry> {
    let mut map = IndexMap::new();
    map.insert(String::from("alpha"), entry(false, 3, false));
    map.insert(String::from("beta_noise"), entry(true, 9, false));
    map.insert(String::from("gamma"), entry(false, 3, true));
    map.insert(String::from("delta_noise"), entry(true, 0, true));
    map.insert(String::from("epsilon"), entry(false, 9, false));
    map
}

fn names(map: &IndexMap<String, Entry>) -> Vec<String> {
    map.keys().cloned().collect()
}

fn tags(noise: bool, downloaded: bool) -> Tags {
    Tags { noise, downloaded }
}

#[test]
fn tags_has_any() {
    assert!(!tags(false, false).has_any());
    assert!(tags(true, false).has_any());
    assert!(tags(false, true).has_any());
    assert!(tags(true, true).has_any());
    assert!(!Tags::default().has_any());
}

#[test]
fn tags_admit_conjunction() {
    let plain = entry(false, 0, false);
    let noisy = entry(true, 0, false);
    let noisy_on_disk = entry(true, 0, true);
    assert!(tags(false, false).admits(&plain));
    assert!(!tags(true, false).admits(&plain));
    assert!(tags(true, false).admits(&noisy));
    assert!(!tags(true, true).admits(&noisy));
    assert!(tags(true, true).admits(&noisy_on_disk));
    assert!(!tags(false, true).admits(&plain));
}

#[test]
fn no_filter_keeps_every_entry_most_downloaded_first() {
    let view = filtered(&catalog(), &tags(false, false), "");
    assert_eq!(names(&view), ["beta_noise", "epsilon", "alpha", "gamma", "delta_noise"]);
}

#[test]
fn ties_keep_catalog_order() {
    let mut map = IndexMap::new();
    map.insert(String::from("z"), entry(false, 0, false));
    map.insert(String::from("m"), entry(false, 0, false));
    map.insert(String::from("a"), entry(false, 0, false));
    let view = filtered(&map, &tags(false, false), "");
    assert_eq!(names(&view), ["z", "m", "a"]);
}

#[test]
fn counters_never_increase_without_search() {
    let view = filtered(&catalog(), &tags(false, false), "");
    let counts: Vec<u32> = view.values().map(|e| e.downloads).collect();
    assert_eq!(counts, [9, 9, 3, 3, 0]);
}

#[test]
fn noise_tag_keeps_only_noisy_entries() {
    let view = filtered(&catalog(), &tags(true, false), "");
    assert_eq!(names(&view), ["beta_noise", "delta_noise"]);
    assert!(view.values().all(|e| e.has_noise));
}

#[test]
fn downloaded_tag_keeps_only_entries_on_disk() {
    let view = filtered(&catalog(), &tags(false, true), "");
    assert_eq!(names(&view), ["gamma", "delta_noise"]);
}

#[test]
fn both_tags_must_hold() {
    let view = filtered(&catalog(), &tags(true, true), "");
    assert_eq!(names(&view), ["delta_noise"]);
}

#[test]
fn search_drops_names_that_do_not_match() {
    let view = filtered(&catalog(), &tags(false, false), "noise");
    let mut shown = names(&view);
    shown.sort();
    assert_eq!(shown, ["beta_noise", "delta_noise"]);
    for name in view.keys() {
        assert!(name_matches(name, "noise"));
    }
    for name in catalog().keys() {
        assert_eq!(view.contains_key(name), name_matches(name, "noise"));
    }
}

#[test]
fn search_applies_whatever_the_tags() {
    let view = filtered(&catalog(), &tags(false, true), "alpha");
    assert!(view.is_empty());
    let view = filtered(&catalog(), &tags(false, true), "gam");
    assert_eq!(names(&view), ["gamma"]);
}

#[test]
fn search_orders_by_match_value() {
    let mut map = IndexMap::new();
    map.insert(String::from("a_x_b_x_c"), entry(false, 50, false));
    map.insert(String::from("abc"), entry(false, 1, false));
    map.insert(String::from("zzz"), entry(false, 99, false));
    map.insert(String::from("ab_c"), entry(false, 7, false));
    let view = filtered(&map, &tags(false, false), "abc");
    let shown = names(&view);
    assert_eq!(shown.len(), 3);
    assert!(!shown.contains(&String::from("zzz")));
    let values: Vec<i64> = shown.iter().map(|n| name_score(n, "abc")).collect();
    for pair in values.windows(2) {
        assert!(pair[0] >= pair[1]);
    }
    assert_eq!(shown[0], "abc");
}

#[test]
fn equal_match_values_keep_popularity_order() {
    let mut map = IndexMap::new();
    map.insert(String::from("abc"), entry(false, 1, false));
    let mut twin = IndexMap::new();
    twin.insert(String::from("abc"), entry(false, 1, false));
    assert_eq!(names(&filtered(&map, &tags(false, false), "abc")), names(&filtered(&twin, &tags(false, false), "abc")));
}

#[test]
fn rebuilding_twice_gives_the_same_rows() {
    for query in ["", "noise", "a", "zzzz"] {
        for (noise, downloaded) in [(false, false), (true, false), (false, true), (true, true)] {
            let first = filtered(&catalog(), &tags(noise, downloaded), query);
            let second = filtered(&catalog(), &tags(noise, downloaded), query);
            assert_eq!(names(&first), names(&second));
        }
    }
}

#[test]
fn panel_rebuild_is_idempotent() {
    let mut panel = ClickpackDb::new(false);
    panel.db.entries = catalog();
    panel.search_query = String::from("a");
    panel.update_filtered_entries();
    let first = names(&panel.filtered_entries);
    panel.update_filtered_entries();
    assert_eq!(first, names(&panel.filtered_entries));
    assert!(!first.is_empty());
}

#[test]
fn view_entries_are_copies_of_catalog_entries() {
    let source = catalog();
    let view = filtered(&source, &tags(false, false), "");
    for (name, shown) in view.iter() {
        let filed = &source[name];
        assert_eq!(shown.downloads, filed.downloads);
        assert_eq!(shown.downloads_str, filed.downloads_str);
        assert_eq!(shown.url, filed.url);
        assert_eq!(shown.has_noise, filed.has_noise);
    }
}

#[test]
fn match_agrees_with_the_skim_matcher() {
    let matcher = SkimMatcherV2::default();
    for (choice, pattern) in [("axbycz", "abc"), ("abc", "abx"), ("", "a"), ("abcdefaghi", ""), ("Hello_World", "hw"), ("camelCase", "CC")] {
        let expected = matcher.fuzzy_match(choice, pattern);
        assert_eq!(name_matches(choice, pattern), expected.is_some());
        assert_eq!(name_score(choice, pattern), expected.unwrap_or(0));
    }
    assert!(name_matches("axbycz", "abc"));
    assert!(!name_matches("abc", "abx"));
    assert!(name_score("axbycz", "abc") != 0);
}

#[test]
fn score_reading() {
    assert!(keeps(Some(0)));
    assert!(keeps(Some(-4)));
    assert!(!keeps(None));
    assert_eq!(value_of(Some(17)), 17);
    assert_eq!(value_of(Some(-3)), -3);
    assert_eq!(value_of(None), 0);
}

#[test]
fn empty_catalog_gives_empty_view() {
    let view = filtered(&IndexMap::new(), &tags(true, true), "x");
    assert!(view.is_empty());
    let db = Database::default();
    assert!(db.entries.is_empty());
    assert!(matches!(Status::default(), Status::NotLoaded));
}
