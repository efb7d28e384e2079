//! The catalog as it was last loaded, and how far loading has come.

use crate::catalog_map::{map_insert, map_new, rows};
use crate::entry::Entry;
use crate::popularity::{merge_counts, merged};
use crate::rows::{distinct_names, lemma_upsert_names, upsert, Row};
use indexmap::IndexMap;
use vstd::prelude::*;

verus! {

/// How far the loading of the catalog has come.
#[derive(Debug)]
pub enum Status {
    /// Nothing was asked for yet, or a refresh was requested.
    NotLoaded,
    /// The catalog was asked for and has not arrived.
    Loading,
    /// The catalog could not be fetched or read; the message says why.
    Error(String),
    /// The catalog is here. `did_filter` tells whether the filtered view
    /// was rebuilt since it arrived or last changed.
    Loaded {
        /// Whether the filtered view is current.
        did_filter: bool,
    },
}

/// Mathematical value of a [`Status`].
pub enum StatusView {
    NotLoaded,
    Loading,
    Error(Seq<char>),
    Loaded { did_filter: bool },
}

impl View for Status {
    type V = StatusView;

    open spec fn view(&self) -> StatusView {
        match *self {
            Status::NotLoaded => StatusView::NotLoaded,
            Status::Loading => StatusView::Loading,
            Status::Error(message) => StatusView::Error(message@),
            Status::Loaded { did_filter } => StatusView::Loaded { did_filter },
        }
    }
}

impl Clone for Status {
    fn clone(&self) -> (r: Self)
        ensures
            r@ == self@,
    {
        match self {
            Status::NotLoaded => Status::NotLoaded,
            Status::Loading => Status::Loading,
            Status::Error(message) => Status::Error(message.clone()),
            Status::Loaded { did_filter } => Status::Loaded { did_filter: *did_filter },
        }
    }
}

impl Default for Status {
    fn default() -> (r: Self)
        ensures
            r@ == StatusView::NotLoaded,
    {
        Status::NotLoaded
    }
}

/// The catalog: when it was last changed, its entries in catalog order, and
/// the base address of the popularity service.
pub struct Database {
    /// Time of the catalog's last change, in seconds since the Unix epoch.
    pub updated_at_unix: i64,
    /// The entries by name, in catalog order.
    pub entries: IndexMap<String, Entry>,
    /// Base address of the popularity service.
    pub hiatus: String,
}

/// Mathematical value of a [`Database`].
pub struct DatabaseView {
    pub updated_at_unix: int,
    pub entries: Seq<Row>,
    pub hiatus: Seq<char>,
}

impl View for Database {
    type V = DatabaseView;

    open spec fn view(&self) -> DatabaseView {
        DatabaseView {
            updated_at_unix: self.updated_at_unix as int,
            entries: rows(self.entries),
            hiatus: self.hiatus@,
        }
    }
}

impl Default for Database {
    fn default() -> (db: Self)
        ensures
            db@ == (DatabaseView {
                updated_at_unix: 0,
                entries: Seq::<Row>::empty(),
                hiatus: Seq::<char>::empty(),
            }),
            db.wf(),
    {
        Database { updated_at_unix: 0, entries: map_new(), hiatus: String::new() }
    }
}

impl Database {
    /// No two entries share a name.
    pub open spec fn wf(&self) -> bool {
        distinct_names(self@.entries)
    }

    /// A catalog without entries.
    pub fn new(updated_at_unix: i64, hiatus: String) -> (db: Self)
        ensures
            db@ == (DatabaseView {
                updated_at_unix: updated_at_unix as int,
                entries: Seq::<Row>::empty(),
                hiatus: hiatus@,
            }),
            db.wf(),
    {
        Database { updated_at_unix, entries: map_new(), hiatus }
    }

    /// Files `entry` under `name`: in place of an entry of that name, or
    /// else after all others.
    pub fn insert(&mut self, name: String, entry: Entry)
        requires
            old(self).wf(),
        ensures
            final(self)@ == (DatabaseView {
                entries: upsert(old(self)@.entries, name@, entry@),
                ..old(self)@
            }),
            final(self).wf(),
    {
        proof {
            lemma_upsert_names(self@.entries, name@, entry@);
        }
        map_insert(&mut self.entries, name, entry);
    }

    /// Merges reported download counts into the entries; see [`merged`].
    pub fn merge_downloads(&mut self, counts: &Vec<(String, u32)>)
        requires
            old(self).wf(),
        ensures
            final(self)@ == (DatabaseView {
                entries: merged(old(self)@.entries, counts.deep_view()),
                ..old(self)@
            }),
            final(self).wf(),
    {
        merge_counts(&mut self.entries, counts);
    }
}

} // verus!
