//! Indexing and ranked fuzzy search for a local application launcher.
//!
//! The library holds the decisions of the launcher: which files become
//! entries, how they are named, deduplicated and ordered, how a query ranks
//! them, how the published index changes, and how a session reacts to events.
//! Walking directories, reading shortcut files, extracting icons and drawing
//! the window are left to the program around it.
pub mod config;
pub mod entry;
pub mod order;
pub mod platform;
pub mod scan;
pub mod search;
pub mod session;
pub mod snapshot;
pub mod store;
pub mod text;
