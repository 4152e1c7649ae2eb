//! What a tray-resident music player for a Jellyfin server decides.
//!
//! Nothing here reads or writes anything: commands, ticks and answers go in, and lists of things
//! to do come out.

pub mod cli;
pub mod config;
pub mod fonts;
pub mod fuzzy;
pub mod jellyfin;
pub mod mpris;
pub mod order;
pub mod player;
pub mod random;
pub mod report;
pub mod text;
pub mod theme;
pub mod time;
pub mod tray;
pub mod ui;
