//! Video sources: the shared item types and one module per source.
use vstd::prelude::*;

pub mod iptv;
pub mod jellyfin;
pub mod youtube;
pub mod local;
pub mod player;

verus! {

/// A playable video, whatever its source.
#[derive(Debug, Clone)]
pub struct VideoItem {
    pub id: String,
    pub title: String,
    pub url: String,
    pub description: Option<String>,
    pub thumbnail: Option<String>,
    /// Length in seconds, where known.
    pub duration: Option<u64>,
    pub source: VideoSource,
}

/// Where a video comes from.
#[derive(Debug, Clone, Copy, PartialEq, Eq, Structural)]
pub enum VideoSource {
    IPTV,
    YouTube,
    Local,
    Jellyfin,
}

/// One entry of an M3U playlist.
#[derive(Debug, Clone)]
pub struct M3UEntry {
    pub name: String,
    pub url: String,
    pub group: Option<String>,
    pub logo: Option<String>,
    pub description: Option<String>,
}

} // verus!
