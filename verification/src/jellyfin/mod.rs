//! Talking to a Jellyfin server: what is asked, and what the replies mean.

pub mod auth;
pub mod client;
pub mod models;
