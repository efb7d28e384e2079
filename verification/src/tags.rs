//! Tag toggles that narrow the visible part of the catalog.

use crate::entry::{Entry, EntryView};
use crate::rows::Row;
use vstd::prelude::*;

verus! {

/// The tag filters a user can switch on.
#[derive(Clone, Copy, Debug)]
pub struct Tags {
    /// Keep only packs that ship a noise file.
    pub noise: bool,
    /// Keep only packs that are already downloaded.
    pub downloaded: bool,
}

impl Default for Tags {
    fn default() -> (tags: Self)
        ensures
            tags == (Tags { noise: false, downloaded: false }),
    {
        Tags { noise: false, downloaded: false }
    }
}

impl Tags {
    /// Whether any filter is switched on.
    pub open spec fn any(self) -> bool {
        self.noise || self.downloaded
    }

    /// Whether `entry` satisfies every filter that is switched on.
    pub open spec fn admits_entry(self, entry: EntryView) -> bool {
        (self.noise ==> entry.has_noise) && (self.downloaded ==> entry.is_downloaded())
    }

    /// The rows whose entries satisfy every filter that is switched on.
    pub open spec fn admitted(self) -> spec_fn(Row) -> bool {
        |row: Row| self.admits_entry(row.1)
    }

    /// Whether any filter is switched on.
    #[inline]
    pub fn has_any(&self) -> (b: bool)
        ensures
            b == self.any(),
    {
        self.noise || self.downloaded
    }

    /// Whether `entry` satisfies every filter that is switched on.
    pub fn admits(&self, entry: &Entry) -> (b: bool)
        ensures
            b == self.admits_entry(entry@),
    {
        if self.noise && !entry.has_noise {
            return false;
        }
        if self.downloaded && !entry.is_downloaded() {
            return false;
        }
        true
    }
}

} // verus!
