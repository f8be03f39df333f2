//! Verified core of a terminal video/IPTV browser: M3U playlist parsing,
//! the channel browser's state machine, and the pure parts of the Jellyfin,
//! YouTube, local-file and player integrations.

pub mod json;
pub mod text;
pub mod ui;
pub mod video;
