//! Finds directories by name under a root, tracks their sizes, and keeps the
//! view model of an interactive clean-up session: selection, pagination,
//! prioritised deletion and the ledger of freed space.

pub mod list;
pub mod text;
pub mod format;
pub mod ignore;
pub mod entry;
pub mod discover;
pub mod places;
pub mod size;
pub mod deletion;
pub mod index;
pub mod app;
pub mod sizing;
pub mod ledger;
pub mod requests;
pub mod scheduler;
pub mod input;
pub mod style;
pub mod view;
pub mod panels;
pub mod report;
