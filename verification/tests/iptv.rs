use aetherstream::video::iptv::{extract_attr, parse_m3u};

#[test]
fn test_parse_simple_m3u() {
    let content = r#"#EXTM3U
#EXTINF:-1 tvg-id="ch1" group-title="News" tvg-logo="http://example.com/logo.png",BBC News
http://example.com/bbc.m3u8
#EXTINF:-1,CNN
http://example.com/cnn.m3u8
"#;
    let playlist = parse_m3u(content);
    assert_eq!(playlist.channels.len(), 2);
    assert_eq!(playlist.channels[0].name, "BBC News");
    assert_eq!(playlist.channels[0].group, Some("News".to_string()));
    assert_eq!(playlist.channels[1].name, "CNN");
}

#[test]
fn parse_keeps_all_attributes() {
    let content = "#EXTINF:-1 tvg-id=\"ch1\" group-title=\"News\" tvg-logo=\"http://example.com/logo.png\",BBC News\nhttp://example.com/bbc.m3u8\n";
    let playlist = parse_m3u(content);
    let ch = &playlist.channels[0];
    assert_eq!(ch.tvg_id, Some("ch1".to_string()));
    assert_eq!(ch.logo, Some("http://example.com/logo.png".to_string()));
    assert_eq!(ch.url, "http://example.com/bbc.m3u8");
    assert_eq!(playlist.groups, vec!["News".to_string()]);
}

#[test]
fn parse_channel_without_name_uses_url() {
    let playlist = parse_m3u("#EXTM3U\n  http://a.example/stream  \n");
    assert_eq!(playlist.channels.len(), 1);
    assert_eq!(playlist.channels[0].name, "http://a.example/stream");
    assert_eq!(playlist.channels[0].url, "http://a.example/stream");
    assert_eq!(playlist.channels[0].group, None);
}

#[test]
fn parse_groups_sorted_and_distinct() {
    let content = "#EXTINF:-1 group-title=\"Sports\",A\nhttp://a\n#EXTINF:-1 group-title=\"News\",B\nhttp://b\n#EXTINF:-1 group-title=\"Sports\",C\nhttp://c\n#EXTINF:-1 group-title=\"Kids\",D\n";
    let playlist = parse_m3u(content);
    assert_eq!(playlist.channels.len(), 3);
    assert_eq!(
        playlist.groups,
        vec!["Kids".to_string(), "News".to_string(), "Sports".to_string()]
    );
    assert_eq!(playlist.channels[2].name, "C");
}

#[test]
fn parse_attributes_reset_after_each_channel() {
    let content = "#EXTINF:-1 group-title=\"News\",A\nhttp://a\nhttp://b\r\n";
    let playlist = parse_m3u(content);
    assert_eq!(playlist.channels.len(), 2);
    assert_eq!(playlist.channels[0].group, Some("News".to_string()));
    assert_eq!(playlist.channels[1].group, None);
    assert_eq!(playlist.channels[1].name, "http://b");
}

#[test]
fn parse_name_after_last_comma() {
    let playlist = parse_m3u("#EXTINF:-1 tvg-name=\"a,b\",  Channel, One  \nudp://x\n");
    assert_eq!(playlist.channels[0].name, "One");
}

#[test]
fn parse_empty_input() {
    let playlist = parse_m3u("");
    assert!(playlist.channels.is_empty());
    assert!(playlist.groups.is_empty());
}

#[test]
fn extract_attr_finds_value() {
    assert_eq!(
        extract_attr("-1 tvg-id=\"ch1\" group-title=\"News\"", "group-title"),
        Some("News".to_string())
    );
    assert_eq!(extract_attr("-1 tvg-id=\"ch1\"", "tvg-logo"), None);
    assert_eq!(extract_attr("-1 tvg-id=\"unterminated", "tvg-id"), None);
    assert_eq!(extract_attr("x=\"\"", "x"), Some(String::new()));
}

#[test]
fn extract_attr_first_occurrence_wins() {
    assert_eq!(extract_attr("a=\"1\" a=\"2\"", "a"), Some("1".to_string()));
    assert_eq!(extract_attr("xtvg-id=\"7\"", "tvg-id"), Some("7".to_string()));
}

#[test]
fn parse_split_at_line_break_continues() {
    let whole = parse_m3u("#EXTINF:-1 group-title=\"G\",A\nhttp://a\n#EXTINF:-1,B\nhttp://b");
    assert_eq!(whole.channels.len(), 2);
    assert_eq!(whole.channels[0].name, "A");
    assert_eq!(whole.channels[0].group.as_deref(), Some("G"));
    assert_eq!(whole.channels[1].name, "B");
    assert_eq!(whole.channels[1].group, None);
}

#[test]
fn parse_channels_have_names_and_urls() {
    let p = parse_m3u("#EXTINF:-1 group-title=\"Z\",\n# comment\n\n  udp://x  \n#EXTINF:-1 group-title=\"A\"\n");
    assert_eq!(p.channels.len(), 1);
    assert_eq!(p.channels[0].name, "udp://x");
    assert_eq!(p.channels[0].group.as_deref(), Some("Z"));
    assert_eq!(p.groups, vec!["A".to_string(), "Z".to_string()]);
}

fn channel_fields(p: &aetherstream::video::iptv::Playlist) -> Vec<(String, String, Option<String>, Option<String>, Option<String>)> {
    p.channels
        .iter()
        .map(|c| (c.name.clone(), c.url.clone(), c.group.clone(), c.logo.clone(), c.tvg_id.clone()))
        .collect()
}

#[test]
fn joined_playlists_concatenate_channels_and_merge_groups() {
    let a = "#EXTINF:-1 group-title=\"News\" tvg-id=\"n1\",One\nhttp://one\n";
    let b = "#EXTINF:-1 group-title=\"Art\",Two\nhttp://two\n#EXTINF:-1 group-title=\"News\",Three\nhttp://three";
    let joined = format!("{}{}", a, b);
    let pa = parse_m3u(a);
    let pb = parse_m3u(b);
    let pj = parse_m3u(&joined);
    let mut expected = channel_fields(&pa);
    expected.extend(channel_fields(&pb));
    assert_eq!(channel_fields(&pj), expected);
    assert_eq!(pj.groups, vec!["Art".to_string(), "News".to_string()]);
}

#[test]
fn joined_playlists_pending_name_carries_over() {
    // The first piece ends with an `#EXTINF` line that waits for its URL:
    // joining is then not the same as reading the pieces apart.
    let a = "#EXTINF:-1,Waiting\n";
    let b = "http://late";
    let pj = parse_m3u(&format!("{}{}", a, b));
    assert_eq!(pj.channels.len(), 1);
    assert_eq!(pj.channels[0].name, "Waiting");
    assert_eq!(parse_m3u(a).channels.len(), 0);
    assert_eq!(parse_m3u(b).channels[0].name, "http://late");
}

#[test]
fn blank_comment_padding_and_crlf_change_nothing() {
    let plain = "#EXTINF:-1 group-title=\"G\" tvg-logo=\"L\",Name\nhttp://x\n#EXTINF:-1,Other\nhttp://y";
    let edited = "#EXTM3U\r\n\r\n  #EXTINF:-1 group-title=\"G\" tvg-logo=\"L\",Name\t\r\n# a note\n\t http://x \r\n\n#EXTINF:-1,Other\r\n   \nhttp://y\r\n# trailing";
    let p1 = parse_m3u(plain);
    let p2 = parse_m3u(edited);
    assert_eq!(channel_fields(&p1), channel_fields(&p2));
    assert_eq!(p1.groups, p2.groups);
    assert_eq!(p2.channels.len(), 2);
    assert_eq!(p2.channels[0].url, "http://x");
    assert_eq!(p2.channels[1].name, "Other");
}
