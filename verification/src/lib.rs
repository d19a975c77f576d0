//! Verified core of a tray application that shows the usage limits of a local Codex CLI.

pub mod cache;
pub mod exchange;
pub mod executable;
pub mod heat;
pub mod heatmap;
pub mod json;
pub mod json_text;
pub mod messages;
pub mod numeral;
pub mod sessions;
pub mod settings;
pub mod snapshot;
pub mod snapshot_laws;
pub mod text;
pub mod time;
pub mod usage;
pub mod usage_laws;
pub mod window;
