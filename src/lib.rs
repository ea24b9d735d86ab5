//! A three-pane directory browser model: the parent, current and preview
//! listings of a working directory, kept consistent under navigation.

pub mod entry;
pub mod keys;
pub mod laws;
pub mod listing;
pub mod names;
pub mod navigation;
pub mod path;
pub mod preview;
