//! User-interface logic that does not draw: the texts of the video panels
//! and the browser's state.
use vstd::prelude::*;
use crate::text::{owned, push_str};
use crate::video::VideoItem;

pub mod video_browser;

verus! {

/// The playback line of the now-playing panel, given whether a player
/// exists and, if so, whether it is playing.
pub fn playback_label(player_playing: Option<bool>) -> (r: String)
    ensures
        r@ == match player_playing {
            Some(true) => "▶ Playing"@,
            Some(false) => "⏸ Stopped"@,
            None => "⏹ Stopped"@,
        },
{
    match player_playing {
        Some(true) => owned("▶ Playing"),
        Some(false) => owned("⏸ Stopped"),
        None => owned("⏹ Stopped"),
    }
}

/// The lines of the now-playing panel for `video`: its title, and its
/// source and picture where it has them.
pub fn now_playing_lines(video: &VideoItem) -> (r: (String, Option<String>, Option<String>))
    ensures
        r.0@ == "Title: "@ + video.title@,
        match video.description {
            Some(d) => r.1 matches Some(l) && l@ == "Source: "@ + d@,
            None => r.1 is None,
        },
        match video.thumbnail {
            Some(t) => r.2 matches Some(l) && l@ == "Thumb: "@ + t@,
            None => r.2 is None,
        },
{
    let mut title = owned("Title: ");
    push_str(&mut title, video.title.as_str());
    let source = match &video.description {
        Some(d) => {
            let mut l = owned("Source: ");
            push_str(&mut l, d.as_str());
            Some(l)
        },
        None => None,
    };
    let thumb = match &video.thumbnail {
        Some(t) => {
            let mut l = owned("Thumb: ");
            push_str(&mut l, t.as_str());
            Some(l)
        },
        None => None,
    };
    (title, source, thumb)
}

/// The controls panel's note on Kitty's embedded video.
pub fn kitty_status_text(kitty_available: bool) -> (r: String)
    ensures
        r@ == if kitty_available {
            "✓ Kitty mode available"@
        } else {
            "⚠ Install Kitty for embedded video"@
        },
{
    if kitty_available {
        owned("✓ Kitty mode available")
    } else {
        owned("⚠ Install Kitty for embedded video")
    }
}

/// Whether the body shows the video panels: in video mode, once the
/// browser exists.
pub fn shows_video_body(video_mode: bool, has_browser: bool) -> (r: bool)
    ensures
        r == (video_mode && has_browser),
{
    video_mode && has_browser
}

} // verus!
