//! Catalog entries and the download state each one carries.

use vstd::prelude::*;

verus! {

/// Where an entry stands between the catalog and the local disk.
#[derive(Debug)]
pub enum DownloadStatus {
    /// Nothing of the pack is on disk.
    NotDownloaded,
    /// A background fetch is under way.
    Downloading,
    /// The pack was fetched and unpacked into `path`.
    Downloaded {
        /// Directory that holds the unpacked pack.
        path: String,
        /// One-shot request to make this pack the active one.
        do_select: bool,
    },
    /// The fetch or the unpacking failed with this message.
    Error(String),
}

/// Mathematical value of a [`DownloadStatus`].
pub enum DownloadStatusView {
    NotDownloaded,
    Downloading,
    Downloaded { path: Seq<char>, do_select: bool },
    Error(Seq<char>),
}

impl View for DownloadStatus {
    type V = DownloadStatusView;

    open spec fn view(&self) -> DownloadStatusView {
        match *self {
            DownloadStatus::NotDownloaded => DownloadStatusView::NotDownloaded,
            DownloadStatus::Downloading => DownloadStatusView::Downloading,
            DownloadStatus::Downloaded { path, do_select } => DownloadStatusView::Downloaded {
                path: path@,
                do_select,
            },
            DownloadStatus::Error(message) => DownloadStatusView::Error(message@),
        }
    }
}

impl Clone for DownloadStatus {
    fn clone(&self) -> (r: Self)
        ensures
            r@ == self@,
    {
        match self {
            DownloadStatus::NotDownloaded => DownloadStatus::NotDownloaded,
            DownloadStatus::Downloading => DownloadStatus::Downloading,
            DownloadStatus::Downloaded { path, do_select } => DownloadStatus::Downloaded {
                path: path.clone(),
                do_select: *do_select,
            },
            DownloadStatus::Error(message) => DownloadStatus::Error(message.clone()),
        }
    }
}

impl Default for DownloadStatus {
    fn default() -> (r: Self)
        ensures
            r@ == DownloadStatusView::NotDownloaded,
    {
        DownloadStatus::NotDownloaded
    }
}

} // verus!

verus! {

/// One pack of the catalog: what the catalog says of it, and what has
/// happened to it locally.
#[derive(Debug)]
pub struct Entry {
    /// Size of the archive in bytes.
    pub size: usize,
    /// Size of the unpacked pack in bytes.
    pub uncompressed_size: usize,
    /// Whether the pack ships a noise file.
    pub has_noise: bool,
    /// Where the archive is fetched from.
    pub url: String,
    /// Local download state; never part of the catalog.
    pub dwn_status: DownloadStatus,
    /// Popularity counter; zero until the popularity service says otherwise.
    pub downloads: u32,
    /// Decimal text of `downloads`, kept for display; empty while the
    /// counter is zero.
    pub downloads_str: String,
}

/// Mathematical value of an [`Entry`].
pub struct EntryView {
    pub size: nat,
    pub uncompressed_size: nat,
    pub has_noise: bool,
    pub url: Seq<char>,
    pub status: DownloadStatusView,
    pub downloads: nat,
    pub downloads_text: Seq<char>,
}

impl EntryView {
    /// The cached text agrees with the counter.
    pub open spec fn consistent(self) -> bool {
        self.downloads_text == if self.downloads == 0 {
            Seq::<char>::empty()
        } else {
            crate::text::decimal(self.downloads)
        }
    }

    /// Whether the pack is on disk.
    pub open spec fn is_downloaded(self) -> bool {
        self.status is Downloaded
    }

    /// This entry with another download state.
    pub open spec fn with_status(self, status: DownloadStatusView) -> EntryView {
        EntryView { status, ..self }
    }

    /// This entry with the popularity counter set to `count` and the text
    /// to the decimal numeral of `count`.
    pub open spec fn with_downloads(self, count: nat) -> EntryView {
        EntryView { downloads: count, downloads_text: crate::text::decimal(count), ..self }
    }
}

impl View for Entry {
    type V = EntryView;

    open spec fn view(&self) -> EntryView {
        EntryView {
            size: self.size as nat,
            uncompressed_size: self.uncompressed_size as nat,
            has_noise: self.has_noise,
            url: self.url@,
            status: self.dwn_status@,
            downloads: self.downloads as nat,
            downloads_text: self.downloads_str@,
        }
    }
}

impl Clone for Entry {
    fn clone(&self) -> (r: Self)
        ensures
            r@ == self@,
    {
        Entry {
            size: self.size,
            uncompressed_size: self.uncompressed_size,
            has_noise: self.has_noise,
            url: self.url.clone(),
            dwn_status: self.dwn_status.clone(),
            downloads: self.downloads,
            downloads_str: self.downloads_str.clone(),
        }
    }
}

impl Entry {
    /// An entry as the catalog describes it: not downloaded, counter at zero.
    pub fn new(size: usize, uncompressed_size: usize, has_noise: bool, url: String) -> (r: Self)
        ensures
            r@ == (EntryView {
                size: size as nat,
                uncompressed_size: uncompressed_size as nat,
                has_noise,
                url: url@,
                status: DownloadStatusView::NotDownloaded,
                downloads: 0,
                downloads_text: Seq::<char>::empty(),
            }),
            r@.consistent(),
    {
        Entry {
            size,
            uncompressed_size,
            has_noise,
            url,
            dwn_status: DownloadStatus::NotDownloaded,
            downloads: 0,
            downloads_str: String::new(),
        }
    }

    /// Whether the pack is on disk.
    pub fn is_downloaded(&self) -> (b: bool)
        ensures
            b == self@.is_downloaded(),
    {
        match self.dwn_status {
            DownloadStatus::Downloaded { .. } => true,
            _ => false,
        }
    }

    /// Records a popularity count together with its decimal text.
    pub fn set_downloads(&mut self, count: u32)
        ensures
            final(self)@ == old(self)@.with_downloads(count as nat),
            count != 0 ==> final(self)@.consistent(),
    {
        self.downloads = count;
        self.downloads_str = crate::text::decimal_string(count);
    }
}

} // verus!

verus! {

/// The download state that a finished background fetch leaves: on success
/// the pack is on disk at `path` and carries the selection request it was
/// started with; on failure the state holds the failure's message as it is.
pub open spec fn reported(outcome: Result<(), String>, path: Seq<char>, do_select: bool) -> DownloadStatusView {
    match outcome {
        Ok(_) => DownloadStatusView::Downloaded { path, do_select },
        Err(message) => DownloadStatusView::Error(message@),
    }
}

impl DownloadStatus {
    /// The state that a finished background fetch leaves; see [`reported`].
    pub fn from_report(outcome: Result<(), String>, path: String, do_select: bool) -> (status: Self)
        ensures
            status@ == reported(outcome, path@, do_select),
    {
        match outcome {
            Ok(_) => DownloadStatus::Downloaded { path, do_select },
            Err(message) => DownloadStatus::Error(message),
        }
    }
}

} // verus!
