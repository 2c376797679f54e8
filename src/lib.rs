//! Archive acquisition and installation for a game launcher: safe placement of
//! archive entries, download and extraction progress, launcher detection and
//! the decisions of the install pipeline.
pub mod text;
pub mod errors;
pub mod progress;
pub mod paths;
pub mod extract;
pub mod download;
pub mod launcher;
pub mod tar;
pub mod pipeline;
pub mod mods;
pub mod auth;
pub mod news;
pub mod installations;

pub use text::{normalize_separators, split_on};
