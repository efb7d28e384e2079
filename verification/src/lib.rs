//! State and transition rules of a browser panel for a remote catalog of
//! downloadable click packs.

pub mod tags;
pub mod text;
pub mod endpoints;
pub mod entry;
pub mod filter;
pub mod mailbox;
pub mod panel;
pub mod catalog_map;
pub mod database;
pub mod destination;
pub mod popularity;
pub mod rows;
pub mod search;
pub mod stable;
