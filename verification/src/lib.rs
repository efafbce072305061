//! Export subsystem of a single-note desktop utility: transforms the editor's
//! rich markup into display-safe markup, drives destination backends through
//! generated automation scripts, and orchestrates per-destination outcomes.

pub mod applescript;
pub mod hotcorner;
pub mod markdown;
pub mod prefs;
pub mod prefs_store;
pub mod sanitize;
pub mod storage;
pub mod sync;
pub mod text;
