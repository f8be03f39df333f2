use aetherstream::ui::video_browser::{
    format_channel_line, video_item_for_channel, BrowserAction, BrowserKey, VideoBrowserState,
};
use aetherstream::ui::{kitty_status_text, now_playing_lines, playback_label, shows_video_body};
use aetherstream::video::iptv::{parse_m3u, Channel};
use aetherstream::video::VideoSource;

fn channel(name: &str, group: Option<&str>, logo: Option<&str>, tvg: Option<&str>) -> Channel {
    Channel {
        name: name.to_string(),
        url: format!("http://example.com/{}", name),
        group: group.map(|g| g.to_string()),
        logo: logo.map(|l| l.to_string()),
        tvg_id: tvg.map(|t| t.to_string()),
    }
}

fn browser() -> VideoBrowserState {
    let mut s = VideoBrowserState::default();
    s.channels = vec![
        channel("BBC News", Some("News"), None, Some("bbc")),
        channel("Cartoon", Some("Kids"), Some("logo.png"), None),
        channel("CNN", Some("news"), None, None),
    ];
    s
}

#[test]
fn default_state_is_empty() {
    let s = VideoBrowserState::default();
    assert!(s.channels.is_empty());
    assert_eq!(s.selected_index, 0);
    assert_eq!(s.filter, "");
    assert!(!s.loading);
    assert!(s.status_message.is_none());
    assert!(s.selected_group.is_none());
}

#[test]
fn down_and_up_move_within_channels() {
    let mut s = browser();
    assert!(s.handle_key(BrowserKey::Down).0);
    assert_eq!(s.selected_index, 1);
    s.handle_key(BrowserKey::Down);
    s.handle_key(BrowserKey::Down);
    assert_eq!(s.selected_index, 2);
    s.handle_key(BrowserKey::Up);
    assert_eq!(s.selected_index, 1);
    s.handle_key(BrowserKey::Up);
    s.handle_key(BrowserKey::Up);
    assert_eq!(s.selected_index, 0);
}

#[test]
fn typing_filters_by_name_case_insensitively() {
    let mut s = browser();
    s.handle_key(BrowserKey::Down);
    let (handled, action) = s.handle_key(BrowserKey::Char('n'));
    assert!(handled);
    assert!(matches!(action, BrowserAction::Nothing));
    assert_eq!(s.selected_index, 0);
    assert_eq!(s.filter, "n");
    // "BBC News", "Cartoon", "CNN" all contain an "n" in lower case.
    assert_eq!(s.listed_positions(), vec![0, 1, 2]);
    s.handle_key(BrowserKey::Char('E'));
    // "ne" matches BBC News by name and CNN by its group "news".
    assert_eq!(s.listed_positions(), vec![0, 2]);
}

#[test]
fn down_reaches_group_matches() {
    let mut s = browser();
    s.handle_key(BrowserKey::Char('n'));
    s.handle_key(BrowserKey::Char('e'));
    s.handle_key(BrowserKey::Down);
    assert_eq!(s.selected_index, 1);
    s.handle_key(BrowserKey::Down);
    assert_eq!(s.selected_index, 1);
}

#[test]
fn enter_plays_the_marked_entry() {
    let mut s = VideoBrowserState::default();
    s.channels = vec![
        channel("Alpha", Some("Sports"), None, None),
        channel("Sports Live", None, None, None),
    ];
    s.handle_key(BrowserKey::Char('s'));
    s.handle_key(BrowserKey::Char('p'));
    let lines = s.listed_lines();
    assert_eq!(lines[0], "▶ [Sports] Alpha");
    match s.handle_key(BrowserKey::Enter).1 {
        BrowserAction::Play(i) => assert_eq!(s.channels[i].name, "Alpha"),
        _ => panic!("expected a channel to play"),
    }
}

#[test]
fn enter_plays_selected_match() {
    let mut s = browser();
    s.handle_key(BrowserKey::Char('c'));
    s.handle_key(BrowserKey::Char('n'));
    let (handled, action) = s.handle_key(BrowserKey::Enter);
    assert!(handled);
    match action {
        BrowserAction::Play(i) => assert_eq!(i, 2),
        _ => panic!("expected a channel to play"),
    }
}

#[test]
fn enter_without_match_does_nothing() {
    let mut s = browser();
    s.handle_key(BrowserKey::Char('z'));
    let (handled, action) = s.handle_key(BrowserKey::Enter);
    assert!(handled);
    assert!(matches!(action, BrowserAction::Nothing));
}

#[test]
fn backspace_undoes_typing() {
    let mut s = browser();
    s.handle_key(BrowserKey::Char('x'));
    s.handle_key(BrowserKey::Backspace);
    assert_eq!(s.filter, "");
    assert_eq!(s.selected_index, 0);
    s.handle_key(BrowserKey::Backspace);
    assert_eq!(s.filter, "");
}

#[test]
fn l_starts_loading_playlist() {
    let mut s = browser();
    let (handled, action) = s.handle_key(BrowserKey::Char('L'));
    assert!(handled);
    assert!(s.loading);
    assert_eq!(s.status_message.as_deref(), Some("Loading IPTV playlist..."));
    assert_eq!(s.filter, "");
    match action {
        BrowserAction::FetchPlaylist(url) => {
            assert_eq!(url, "https://iptv-org.github.io/iptv/index.m3u")
        }
        _ => panic!("expected a playlist fetch"),
    }
}

#[test]
fn esc_leaves_video_mode_and_other_keys_are_ignored() {
    let mut s = browser();
    assert!(matches!(s.handle_key(BrowserKey::Esc), (true, BrowserAction::LeaveVideoMode)));
    let (handled, action) = s.handle_key(BrowserKey::Other);
    assert!(!handled);
    assert!(matches!(action, BrowserAction::Nothing));
}

#[test]
fn panel_texts() {
    let mut s = browser();
    assert_eq!(s.title_text(), " 📺 Video Channels ");
    s.selected_group = Some("News".to_string());
    assert_eq!(s.title_text(), " 📺 Video Channels [News] ");
    assert_eq!(s.filter_text(), "Type to filter...");
    s.filter = "bb".to_string();
    assert_eq!(s.filter_text(), "Filter: bb");
    assert_eq!(s.status_text(12), "12 channels loaded");
    s.status_message = Some("Done".to_string());
    assert_eq!(s.status_text(12), "Done");
    s.loading = true;
    assert_eq!(s.status_text(12), "Loading channels...");
}

#[test]
fn channel_lines() {
    let c = channel("Cartoon", Some("Kids"), Some("logo.png"), None);
    assert_eq!(format_channel_line(&c, true), "▶ [Kids] 🖼 Cartoon");
    let d = channel("Plain", None, None, None);
    assert_eq!(format_channel_line(&d, false), "  [] Plain");
    let s = browser();
    let lines = s.listed_lines();
    assert_eq!(lines.len(), 3);
    assert_eq!(lines[0], "▶ [News] BBC News");
    assert_eq!(lines[2], "  [news] CNN");
}

#[test]
fn video_item_from_channel() {
    let c = channel("BBC News", Some("News"), Some("logo.png"), Some("bbc"));
    let v = video_item_for_channel(&c);
    assert_eq!(v.id, "bbc");
    assert_eq!(v.title, "BBC News");
    assert_eq!(v.url, "http://example.com/BBC News");
    assert_eq!(v.description.as_deref(), Some("News"));
    assert_eq!(v.thumbnail.as_deref(), Some("logo.png"));
    assert_eq!(v.duration, None);
    assert_eq!(v.source, VideoSource::IPTV);
    let w = video_item_for_channel(&channel("CNN", None, None, None));
    assert_eq!(w.id, "CNN");
}

#[test]
fn browser_over_parsed_playlist() {
    let p = parse_m3u("#EXTINF:-1 group-title=\"News\",One\nhttp://1\n#EXTINF:-1,Two\nhttp://2\n");
    let mut s = VideoBrowserState::default();
    s.channels = p.channels;
    s.groups = p.groups;
    s.handle_key(BrowserKey::Down);
    match s.handle_key(BrowserKey::Enter).1 {
        BrowserAction::Play(i) => assert_eq!(s.channels[i].url, "http://2"),
        _ => panic!("expected a channel to play"),
    }
}

#[test]
fn now_playing_texts() {
    let c = channel("BBC News", Some("News"), None, None);
    let v = video_item_for_channel(&c);
    let (title, source, thumb) = now_playing_lines(&v);
    assert_eq!(title, "Title: BBC News");
    assert_eq!(source.as_deref(), Some("Source: News"));
    assert_eq!(thumb, None);
    assert_eq!(playback_label(Some(true)), "▶ Playing");
    assert_eq!(playback_label(Some(false)), "⏸ Stopped");
    assert_eq!(playback_label(None), "⏹ Stopped");
    assert_eq!(kitty_status_text(true), "✓ Kitty mode available");
    assert_eq!(kitty_status_text(false), "⚠ Install Kitty for embedded video");
    assert!(shows_video_body(true, true));
    assert!(!shows_video_body(true, false));
}
