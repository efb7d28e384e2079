//! The panel: catalog, filtered view, search text, tags and mailbox, and
//! the transitions that a host's refresh cycle and its user drive.
//!
//! The panel does no input or output. Where a transition calls for some,
//! the function returns what is to be done and the host does it; what came
//! of it is handed back through another function.

use crate::catalog_map::{
    map_clear, map_contains_key, map_get_index, map_get_mut, map_insert, map_len, map_new, rows,
};
use crate::database::{Database, DatabaseView, Status, StatusView};
use crate::destination::{free_name, is_free_name};
use crate::endpoints::downloads_endpoint;
use crate::entry::{reported, DownloadStatus, DownloadStatusView, Entry};
use crate::filter::{filtered, is_filtered_view, lemma_filtered_view_distinct};
use crate::mailbox::{absorbed, drain, refreshed};
use crate::popularity::{
    lemma_merged_list_is_table, merged, merged_table, parse_counts, parsed_counts,
};
use crate::rows::{
    distinct_names, has_name, lemma_position_in_range, lemma_update_keeps_names, lemma_upsert_names,
    upsert, with_status_at, Row,
};
use crate::tags::Tags;
use indexmap::IndexMap;
use vstd::prelude::*;

verus! {

/// State of the catalog panel.
pub struct ClickpackDb {
    /// How far the loading of the catalog has come.
    pub status: Status,
    /// The catalog as it was last loaded.
    pub db: Database,
    /// The rows the table shows, in the order it shows them.
    pub filtered_entries: IndexMap<String, Entry>,
    /// The search text.
    pub search_query: String,
    /// Entries that background work has finished with, by name.
    pub pending_update: IndexMap<String, Entry>,
    /// Directory of the pack that the host should make the active one.
    pub select_clickpack: Option<String>,
    /// The tag filters.
    pub tags: Tags,
    /// Directories of deleted packs that are still to be removed.
    pub pending_clickpack_delete: Vec<String>,
    /// Whether the panel runs inside the live host, which leaves it to the
    /// user to select a pack once it is downloaded.
    pub live: bool,
    /// Whether the filtered view was rebuilt after a load.
    pub has_refreshed: bool,
}

/// Mathematical value of a [`ClickpackDb`].
pub struct PanelView {
    pub status: StatusView,
    pub db: DatabaseView,
    pub filtered: Seq<Row>,
    pub query: Seq<char>,
    pub pending: Seq<Row>,
    pub selected: Option<Seq<char>>,
    pub tags: Tags,
    pub doomed: Seq<Seq<char>>,
    pub live: bool,
    pub has_refreshed: bool,
}

impl PanelView {
    /// Names are distinct within the catalog, within the filtered view and
    /// within the mailbox.
    pub open spec fn wf(self) -> bool {
        &&& distinct_names(self.db.entries)
        &&& distinct_names(self.filtered)
        &&& distinct_names(self.pending)
    }

    /// This panel with other catalog entries.
    pub open spec fn with_entries(self, entries: Seq<Row>) -> PanelView {
        PanelView { db: DatabaseView { entries, ..self.db }, ..self }
    }
}

impl View for ClickpackDb {
    type V = PanelView;

    open spec fn view(&self) -> PanelView {
        PanelView {
            status: self.status@,
            db: self.db@,
            filtered: rows(self.filtered_entries),
            query: self.search_query@,
            pending: rows(self.pending_update),
            selected: match self.select_clickpack {
                Some(path) => Some(path@),
                None => None,
            },
            tags: self.tags,
            doomed: self.pending_clickpack_delete.deep_view(),
            live: self.live,
            has_refreshed: self.has_refreshed,
        }
    }
}

/// `post` is `pre` after the entry filed under `name` got the download
/// state `status` and the filtered view was rebuilt.
pub open spec fn status_set(
    pre: PanelView,
    post: PanelView,
    name: Seq<char>,
    status: DownloadStatusView,
) -> bool {
    &&& post == (PanelView { filtered: post.filtered, ..pre }).with_entries(
        with_status_at(pre.db.entries, name, status),
    )
    &&& is_filtered_view(post.db.entries, pre.tags, pre.query, post.filtered)
}

/// What one refresh cycle asks of the host.
pub struct Frame {
    /// Fetch the catalog and hand the outcome to
    /// [`ClickpackDb::load_database`].
    pub fetch_catalog: bool,
    /// Whether the table takes input during this cycle.
    pub table_enabled: bool,
    /// Directories to remove from disk.
    pub remove_dirs: Vec<String>,
}

impl Default for ClickpackDb {
    fn default() -> (panel: Self)
        ensures
            panel@.status is NotLoaded,
            panel@.db.entries.len() == 0,
            panel@.filtered.len() == 0,
            panel@.pending.len() == 0,
            panel@.query.len() == 0,
            panel@.selected is None,
            !panel@.tags.any(),
            panel@.doomed.len() == 0,
            !panel@.live,
            !panel@.has_refreshed,
            panel.wf(),
    {
        ClickpackDb::new(false)
    }
}

impl ClickpackDb {
    /// The panel's invariant; see [`PanelView::wf`].
    pub open spec fn wf(&self) -> bool {
        self@.wf()
    }

    /// A panel that has loaded nothing yet.
    pub fn new(live: bool) -> (panel: Self)
        ensures
            panel@ == (PanelView {
                status: StatusView::NotLoaded,
                db: DatabaseView {
                    updated_at_unix: 0,
                    entries: Seq::<Row>::empty(),
                    hiatus: Seq::<char>::empty(),
                },
                filtered: Seq::<Row>::empty(),
                query: Seq::<char>::empty(),
                pending: Seq::<Row>::empty(),
                selected: None,
                tags: Tags { noise: false, downloaded: false },
                doomed: Seq::<Seq<char>>::empty(),
                live,
                has_refreshed: false,
            }),
            panel.wf(),
    {
        let panel = ClickpackDb {
            status: Status::NotLoaded,
            db: Database::default(),
            filtered_entries: map_new(),
            search_query: String::new(),
            pending_update: map_new(),
            select_clickpack: None,
            tags: Tags::default(),
            pending_clickpack_delete: Vec::new(),
            live,
            has_refreshed: false,
        };
        assert(panel@.doomed =~= Seq::<Seq<char>>::empty());
        panel
    }

    /// Rebuilds the filtered view from the whole catalog, the tags and the
    /// search text; see [`is_filtered_view`].
    pub fn update_filtered_entries(&mut self)
        requires
            old(self).wf(),
        ensures
            final(self)@ == (PanelView { filtered: final(self)@.filtered, ..old(self)@ }),
            is_filtered_view(
                old(self)@.db.entries,
                old(self)@.tags,
                old(self)@.query,
                final(self)@.filtered,
            ),
            final(self).wf(),
    {
        self.filtered_entries = filtered(&self.db.entries, &self.tags, self.search_query.as_str());
        proof {
            lemma_filtered_view_distinct(
                self@.db.entries,
                self@.tags,
                self@.query,
                self@.filtered,
            );
        }
    }

    /// Takes the mailbox into the catalog and into the filtered view,
    /// empties it, and hands out the directories that are to be removed.
    /// An update reaches the view only where the view already shows a row
    /// of its name.
    pub fn update_pending_update(&mut self) -> (remove_dirs: Vec<String>)
        requires
            old(self).wf(),
        ensures
            final(self)@ == (PanelView {
                filtered: refreshed(old(self)@.filtered, old(self)@.pending),
                pending: Seq::<Row>::empty(),
                doomed: Seq::<Seq<char>>::empty(),
                ..old(self)@
            }).with_entries(absorbed(old(self)@.db.entries, old(self)@.pending)),
            remove_dirs.deep_view() == old(self)@.doomed,
            final(self).wf(),
    {
        drain(&mut self.db.entries, &mut self.filtered_entries, &self.pending_update);
        map_clear(&mut self.pending_update);
        let mut remove_dirs: Vec<String> = Vec::new();
        core::mem::swap(&mut self.pending_clickpack_delete, &mut remove_dirs);
        assert(self@.doomed =~= Seq::<Seq<char>>::empty());
        remove_dirs
    }

    /// One refresh cycle. A catalog that was not asked for yet is asked
    /// for; a catalog that has just arrived or changed gets its filtered
    /// view rebuilt, once; then the mailbox is drained.
    pub fn show(&mut self) -> (frame: Frame)
        requires
            old(self).wf(),
        ensures
            frame.fetch_catalog == (old(self)@.status is NotLoaded),
            frame.table_enabled == !(old(self)@.status is NotLoaded || old(self)@.status is Loading),
            frame.remove_dirs.deep_view() == old(self)@.doomed,
            final(self)@.status == match old(self)@.status {
                StatusView::NotLoaded => StatusView::Loading,
                StatusView::Loaded { did_filter } => StatusView::Loaded { did_filter: true },
                other => other,
            },
            final(self)@.has_refreshed == (old(self)@.has_refreshed || old(self)@.status
                == StatusView::Loaded { did_filter: false }),
            exists|rebuilt: Seq<Row>|
                {
                    &&& if old(self)@.status == (StatusView::Loaded { did_filter: false }) {
                        is_filtered_view(
                            old(self)@.db.entries,
                            old(self)@.tags,
                            old(self)@.query,
                            rebuilt,
                        )
                    } else {
                        rebuilt == old(self)@.filtered
                    }
                    &&& final(self)@.filtered == refreshed(rebuilt, old(self)@.pending)
                },
            final(self)@ == (PanelView {
                status: final(self)@.status,
                filtered: final(self)@.filtered,
                has_refreshed: final(self)@.has_refreshed,
                pending: Seq::<Row>::empty(),
                doomed: Seq::<Seq<char>>::empty(),
                ..old(self)@
            }).with_entries(absorbed(old(self)@.db.entries, old(self)@.pending)),
            final(self).wf(),
    {
        let mut fetch_catalog = false;
        let mut table_enabled = true;
        let status = self.status.clone();
        match status {
            Status::NotLoaded => {
                self.status = Status::Loading;
                fetch_catalog = true;
                table_enabled = false;
            },
            Status::Loading => {
                table_enabled = false;
            },
            Status::Error(_) => {},
            Status::Loaded { did_filter } => {
                if !did_filter {
                    self.update_filtered_entries();
                    self.has_refreshed = true;
                    self.status = Status::Loaded { did_filter: true };
                }
            },
        }
        let ghost rebuilt = self@.filtered;
        let remove_dirs = self.update_pending_update();
        assert(self@.filtered == refreshed(rebuilt, old(self)@.pending));
        Frame { fetch_catalog, table_enabled, remove_dirs }
    }

    /// Takes the outcome of fetching and reading the catalog. A catalog
    /// replaces the one held, the filtered view is marked stale, and the
    /// address to fetch the download counts from is returned. A failure
    /// shows as the error state with the failure's message, and the catalog
    /// held stays.
    pub fn load_database(&mut self, fetched: Result<Database, String>) -> (next: Option<String>)
        requires
            old(self).wf(),
            fetched matches Ok(db) ==> db.wf(),
        ensures
            match fetched {
                Ok(db) => {
                    &&& final(self)@ == (PanelView {
                        status: StatusView::Loaded { did_filter: false },
                        db: db@,
                        ..old(self)@
                    })
                    &&& next matches Some(url)
                    &&& url@ == db@.hiatus + "/downloads/all"@
                },
                Err(message) => {
                    &&& final(self)@ == (PanelView {
                        status: StatusView::Error(message@),
                        ..old(self)@
                    })
                    &&& next is None
                },
            },
            final(self).wf(),
    {
        match fetched {
            Ok(db) => {
                let url = downloads_endpoint(db.hiatus.as_str());
                self.db = db;
                self.status = Status::Loaded { did_filter: false };
                Some(url)
            },
            Err(message) => {
                self.status = Status::Error(message);
                None
            },
        }
    }

    /// Merges reported download counts into the catalog and marks the
    /// filtered view stale; see [`merged`].
    pub fn merge_downloads(&mut self, counts: &Vec<(String, u32)>)
        requires
            old(self).wf(),
        ensures
            final(self)@ == (PanelView {
                status: StatusView::Loaded { did_filter: false },
                ..old(self)@
            }).with_entries(merged(old(self)@.db.entries, counts.deep_view())),
            final(self).wf(),
    {
        self.db.merge_downloads(counts);
        self.status = Status::Loaded { did_filter: false };
    }

    /// Takes the outcome of fetching the download counts. A body that reads
    /// as a table of counts is merged into the catalog and the filtered
    /// view is marked stale; a failed fetch or an unreadable body changes
    /// nothing. Returns whether counts were merged.
    pub fn load_hiatus(&mut self, fetched: Result<Vec<u8>, String>) -> (merged: bool)
        requires
            old(self).wf(),
        ensures
            merged == (fetched matches Ok(body) && parsed_counts(body@) is Some),
            final(self)@ == match fetched {
                Ok(body) => match parsed_counts(body@) {
                    Some(table) => (PanelView {
                        status: StatusView::Loaded { did_filter: false },
                        ..old(self)@
                    }).with_entries(merged_table(old(self)@.db.entries, table)),
                    None => old(self)@,
                },
                Err(_) => old(self)@,
            },
            final(self).wf(),
    {
        match fetched {
            Ok(body) => match parse_counts(body.as_slice()) {
                Some(counts) => {
                    proof {
                        lemma_merged_list_is_table(
                            self@.db.entries,
                            counts.deep_view(),
                            parsed_counts(body@).unwrap(),
                        );
                    }
                    self.merge_downloads(&counts);
                    true
                },
                None => false,
            },
            Err(_) => false,
        }
    }

    /// Takes the outcome of a background fetch of one pack: puts the entry,
    /// with the download state that the outcome gives it, into the mailbox
    /// under `name`; see [`reported`].
    pub fn download_entry(
        &mut self,
        entry: Entry,
        name: String,
        outcome: Result<(), String>,
        path: String,
        do_select: bool,
    )
        requires
            old(self).wf(),
        ensures
            final(self)@ == (PanelView {
                pending: upsert(
                    old(self)@.pending,
                    name@,
                    entry@.with_status(reported(outcome, path@, do_select)),
                ),
                ..old(self)@
            }),
            final(self).wf(),
    {
        let mut entry = entry;
        entry.dwn_status = DownloadStatus::from_report(outcome, path, do_select);
        proof {
            lemma_upsert_names(self@.pending, name@, entry@);
        }
        map_insert(&mut self.pending_update, name, entry);
    }

    /// A click on the refresh button makes the next cycle fetch the catalog
    /// again.
    pub fn refresh_button(&mut self, clicked: bool)
        ensures
            final(self)@ == if clicked {
                PanelView { status: StatusView::NotLoaded, ..old(self)@ }
            } else {
                old(self)@
            },
    {
        if clicked {
            self.status = Status::NotLoaded;
        }
    }
}

/// What happened to a row of the table during a cycle.
pub enum RowEvent {
    /// The row was drawn and nothing was clicked.
    Idle,
    /// The user asked for a download and picked the directory `.0` for it.
    DownloadTo(String),
    /// The user asked for a one-click download. The host keeps such packs
    /// in a directory of its own; `.0` lists the names already taken there.
    Download(Vec<String>),
    /// The user asked to make the pack the active one.
    Select,
    /// The user asked to delete the pack from disk.
    Delete,
}

/// Mathematical value of a [`RowEvent`].
pub enum RowEventView {
    Idle,
    DownloadTo(Seq<char>),
    Download(Seq<Seq<char>>),
    Select,
    Delete,
}

impl View for RowEvent {
    type V = RowEventView;

    open spec fn view(&self) -> RowEventView {
        match *self {
            RowEvent::Idle => RowEventView::Idle,
            RowEvent::DownloadTo(path) => RowEventView::DownloadTo(path@),
            RowEvent::Download(taken) => RowEventView::Download(taken.deep_view()),
            RowEvent::Select => RowEventView::Select,
            RowEvent::Delete => RowEventView::Delete,
        }
    }
}

/// What a row asks of the host.
pub enum RowAction {
    /// Nothing.
    Nothing,
    /// Fetch the pack's archive and unpack it into the directory `path`;
    /// report with the selection request `do_select`.
    FetchInto {
        /// Directory to unpack into.
        path: String,
        /// Selection request to report with.
        do_select: bool,
    },
    /// Create the directory `dir` inside the host's own directory, fetch
    /// the pack's archive and unpack it there; report with the selection
    /// request `do_select`.
    FetchUnder {
        /// Name of the directory to create.
        dir: String,
        /// Selection request to report with.
        do_select: bool,
    },
}

/// Mathematical value of a [`RowAction`].
pub enum RowActionView {
    Nothing,
    FetchInto { path: Seq<char>, do_select: bool },
    FetchUnder { dir: Seq<char>, do_select: bool },
}

impl View for RowAction {
    type V = RowActionView;

    open spec fn view(&self) -> RowActionView {
        match *self {
            RowAction::Nothing => RowActionView::Nothing,
            RowAction::FetchInto { path, do_select } => RowActionView::FetchInto {
                path: path@,
                do_select,
            },
            RowAction::FetchUnder { dir, do_select } => RowActionView::FetchUnder {
                dir: dir@,
                do_select,
            },
        }
    }
}

/// Whether the row, shown with the download state `shown`, selects its pack
/// on `event`: on a click, or by itself where the pack asks for it and the
/// host is not the live one.
pub open spec fn row_selects(shown: DownloadStatusView, event: RowEventView, live: bool) -> bool {
    shown matches DownloadStatusView::Downloaded { do_select, .. } && (event is Select || (!live
        && do_select && !(event is Delete)))
}

/// Whether `event` on a row shown with the download state `shown` changes
/// the download state of the row's entry in the catalog.
pub open spec fn row_writes_status(shown: DownloadStatusView, event: RowEventView, live: bool) -> bool {
    match shown {
        DownloadStatusView::NotDownloaded => event is DownloadTo || event is Download,
        DownloadStatusView::Downloaded { do_select, .. } => event is Delete || (do_select
            && row_selects(shown, event, live)),
        _ => false,
    }
}

/// `post` and `action` are what `event` makes of `pre` on the row `name`
/// that is shown with the download state `shown`.
pub open spec fn row_managed(
    pre: PanelView,
    post: PanelView,
    shown: DownloadStatusView,
    name: Seq<char>,
    event: RowEventView,
    action: RowActionView,
) -> bool {
    match shown {
        DownloadStatusView::NotDownloaded => match event {
            RowEventView::DownloadTo(path) => {
                &&& status_set(pre, post, name, DownloadStatusView::Downloading)
                &&& action == RowActionView::FetchInto { path, do_select: false }
            },
            RowEventView::Download(taken) => {
                &&& status_set(pre, post, name, DownloadStatusView::Downloading)
                &&& action matches RowActionView::FetchUnder { dir, do_select }
                &&& do_select
                &&& is_free_name(name, taken, dir)
            },
            _ => post == pre && action is Nothing,
        },
        DownloadStatusView::Downloaded { path, do_select } => {
            &&& action is Nothing
            &&& if event is Delete {
                status_set(
                    PanelView { doomed: pre.doomed.push(path), ..pre },
                    post,
                    name,
                    DownloadStatusView::NotDownloaded,
                )
            } else if row_selects(shown, event, pre.live) {
                if do_select {
                    status_set(
                        PanelView { selected: Some(path), ..pre },
                        post,
                        name,
                        DownloadStatusView::Downloaded { path, do_select: false },
                    )
                } else {
                    post == (PanelView { selected: Some(path), ..pre })
                }
            } else {
                post == pre
            }
        },
        _ => post == pre && action is Nothing,
    }
}

/// What stands under the table.
#[derive(Clone, Copy, Debug, PartialEq, Eq, Structural)]
pub enum Footer {
    /// The view is empty: say so, and offer to clear the tags and to
    /// refresh.
    Empty,
    /// The view is short: say how many rows it shows.
    Count {
        /// Number of rows shown.
        shown: usize,
        /// Whether that number is one.
        singular: bool,
    },
    /// The view is long: say nothing.
    Quiet,
}

/// Gives the row of that name, if any, the download state `status`.
fn put_status(map: &mut IndexMap<String, Entry>, name: &str, status: DownloadStatus)
    requires
        distinct_names(rows(*old(map))),
    ensures
        rows(*final(map)) == with_status_at(rows(*old(map)), name@, status@),
        distinct_names(rows(*final(map))),
{
    proof {
        if has_name(rows(*map), name@) {
            lemma_position_in_range(rows(*map), name@);
            lemma_update_keeps_names(
                rows(*map),
                crate::rows::position(rows(*map), name@),
                crate::rows::lookup(rows(*map), name@).with_status(status@),
            );
        }
    }
    match map_get_mut(map, name) {
        Some(entry) => {
            entry.dwn_status = status;
        },
        None => {},
    }
}

impl ClickpackDb {
    /// Gives the entry filed under `name` the download state `status` and
    /// rebuilds the filtered view.
    pub fn set_status(&mut self, name: &str, status: DownloadStatus)
        requires
            old(self).wf(),
            has_name(old(self)@.db.entries, name@),
        ensures
            status_set(old(self)@, final(self)@, name@, status@),
            final(self).wf(),
    {
        put_status(&mut self.db.entries, name, status);
        self.update_filtered_entries();
    }

    /// Records what the host knows of a pack on disk: the entry filed under
    /// `name` is downloaded at `path`, or not downloaded, in the catalog
    /// and in the filtered view. A name that is in neither changes nothing.
    pub fn mark_downloaded(&mut self, name: &str, path: String, downloaded: bool)
        requires
            old(self).wf(),
        ensures
            ({
                let status = if downloaded {
                    DownloadStatusView::Downloaded { path: path@, do_select: false }
                } else {
                    DownloadStatusView::NotDownloaded
                };
                final(self)@ == (PanelView {
                    filtered: with_status_at(old(self)@.filtered, name@, status),
                    ..old(self)@
                }).with_entries(with_status_at(old(self)@.db.entries, name@, status))
            }),
            final(self).wf(),
    {
        if downloaded {
            let status = DownloadStatus::Downloaded { path, do_select: false };
            put_status(&mut self.db.entries, name, status.clone());
            put_status(&mut self.filtered_entries, name, status);
        } else {
            put_status(&mut self.db.entries, name, DownloadStatus::NotDownloaded);
            put_status(&mut self.filtered_entries, name, DownloadStatus::NotDownloaded);
        }
    }

    /// Handles what happened to one row of the table. `entry` and `name`
    /// are the row as the table shows it; the row's buttons follow the
    /// download state in `entry`, and so does this function.
    ///
    /// A request to download marks the entry as downloading and tells the
    /// host where to fetch to. A downloaded pack is selected on a click, or
    /// by itself where it asks for that and the host is not the live one;
    /// the request is then cleared. A request to delete queues the pack's
    /// directory for removal and marks the entry as not downloaded.
    pub fn manage_row(&mut self, entry: &Entry, name: &str, event: RowEvent) -> (action: RowAction)
        requires
            old(self).wf(),
            row_writes_status(entry@.status, event@, old(self)@.live) ==> has_name(
                old(self)@.db.entries,
                name@,
            ),
        ensures
            row_managed(old(self)@, final(self)@, entry@.status, name@, event@, action@),
            final(self).wf(),
    {
        match &entry.dwn_status {
            DownloadStatus::NotDownloaded => match event {
                RowEvent::DownloadTo(path) => {
                    self.set_status(name, DownloadStatus::Downloading);
                    RowAction::FetchInto { path, do_select: false }
                },
                RowEvent::Download(taken) => {
                    self.set_status(name, DownloadStatus::Downloading);
                    let dir = free_name(name, &taken);
                    RowAction::FetchUnder { dir, do_select: true }
                },
                _ => RowAction::Nothing,
            },
            DownloadStatus::Downloaded { path, do_select } => {
                match event {
                    RowEvent::Delete => {
                        self.pending_clickpack_delete.push(path.clone());
                        assert(self@.doomed =~= old(self)@.doomed.push(path@));
                        self.set_status(name, DownloadStatus::NotDownloaded);
                    },
                    RowEvent::Select => {
                        self.select(name, path, *do_select);
                    },
                    _ => {
                        if !self.live && *do_select {
                            self.select(name, path, *do_select);
                        }
                    },
                }
                RowAction::Nothing
            },
            _ => RowAction::Nothing,
        }
    }

    /// Makes the pack at `path` the one to select, and clears the entry's
    /// selection request where it had one.
    fn select(&mut self, name: &str, path: &String, do_select: bool)
        requires
            old(self).wf(),
            do_select ==> has_name(old(self)@.db.entries, name@),
        ensures
            if do_select {
                status_set(
                    PanelView { selected: Some(path@), ..old(self)@ },
                    final(self)@,
                    name@,
                    DownloadStatusView::Downloaded { path: path@, do_select: false },
                )
            } else {
                final(self)@ == (PanelView { selected: Some(path@), ..old(self)@ })
            },
            final(self).wf(),
    {
        if do_select {
            self.set_status(name, DownloadStatus::Downloaded { path: path.clone(), do_select: false });
        }
        self.select_clickpack = Some(path.clone());
    }

    /// Whether the catalog files an entry under `name`.
    pub fn has_entry(&self, name: &str) -> (b: bool)
        ensures
            b == has_name(self@.db.entries, name@),
    {
        map_contains_key(&self.db.entries, name)
    }

    /// Whether [`ClickpackDb::manage_row`] would change the download state
    /// of the entry filed under the row's name, which must then be in the
    /// catalog; see [`row_writes_status`].
    pub fn row_needs_entry(&self, entry: &Entry, event: &RowEvent) -> (b: bool)
        ensures
            b == row_writes_status(entry@.status, event@, self@.live),
    {
        match &entry.dwn_status {
            DownloadStatus::NotDownloaded => match event {
                RowEvent::DownloadTo(_) => true,
                RowEvent::Download(_) => true,
                _ => false,
            },
            DownloadStatus::Downloaded { path: _, do_select } => match event {
                RowEvent::Delete => true,
                RowEvent::Select => *do_select,
                _ => *do_select && !self.live,
            },
            _ => false,
        }
    }

    /// Switches every tag off and rebuilds the filtered view.
    pub fn clear_tags(&mut self)
        requires
            old(self).wf(),
        ensures
            final(self)@ == (PanelView {
                tags: Tags { noise: false, downloaded: false },
                filtered: final(self)@.filtered,
                ..old(self)@
            }),
            is_filtered_view(
                old(self)@.db.entries,
                Tags { noise: false, downloaded: false },
                old(self)@.query,
                final(self)@.filtered,
            ),
            final(self).wf(),
    {
        self.tags = Tags::default();
        self.update_filtered_entries();
    }

    /// Number of rows the table shows.
    pub fn row_count(&self) -> (n: usize)
        ensures
            n == self@.filtered.len(),
    {
        map_len(&self.filtered_entries)
    }

    /// The row that the table shows at `index`, or nothing past the end.
    pub fn row(&self, index: usize) -> (r: Option<(String, Entry)>)
        ensures
            r is Some <==> index < self@.filtered.len(),
            r matches Some(pair) ==> (pair.0@, pair.1@) == self@.filtered[index as int],
    {
        match map_get_index(&self.filtered_entries, index) {
            Some(pair) => Some((pair.0.clone(), pair.1.clone())),
            None => None,
        }
    }

    /// What stands under the table: a notice where the view is empty, the
    /// number of rows where there are at most fifteen, nothing otherwise.
    pub fn footer(&self) -> (footer: Footer)
        ensures
            footer == if self@.filtered.len() == 0 {
                Footer::Empty
            } else if self@.filtered.len() <= 15 {
                Footer::Count {
                    shown: self@.filtered.len() as usize,
                    singular: self@.filtered.len() == 1,
                }
            } else {
                Footer::Quiet
            },
    {
        let shown = map_len(&self.filtered_entries);
        if shown == 0 {
            Footer::Empty
        } else if shown <= 15 {
            Footer::Count { shown, singular: shown == 1 }
        } else {
            Footer::Quiet
        }
    }
}

} // verus!
