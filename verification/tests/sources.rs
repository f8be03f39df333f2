use aetherstream::json::{JsonNumber, JsonValue};
use aetherstream::video::jellyfin::{discovery_addresses, discovery_message, info_request_url, libraries_from_json, server_from_info, JellyfinClient};
use aetherstream::video::local::{ffprobe_options, is_video_extension, parse_u64, probe_from_json, scan_action, ScanAction};
use aetherstream::video::player::{default_kitty_size, kitty_detected, mpv_args, socket_file_name};
use aetherstream::video::youtube::{
    format_duration, format_hms, output_lines, search_args, search_result_from_json, stream_args,
    stream_url_from_output, video_from_json,
};

fn s(x: &str) -> JsonValue {
    JsonValue::Str(x.to_string())
}

fn n(x: u64) -> JsonValue {
    JsonValue::Number(JsonNumber { as_u64: Some(x), whole: x })
}

fn obj(members: Vec<(&str, JsonValue)>) -> JsonValue {
    JsonValue::Object(members.into_iter().map(|(k, v)| (k.to_string(), v)).collect())
}

#[test]
fn json_lookups() {
    let v = obj(vec![("a", s("x")), ("b", n(7)), ("c", JsonValue::Array(vec![JsonValue::Null]))]);
    assert_eq!(v.field_str("a"), Some("x".to_string()));
    assert_eq!(v.field_str("b"), None);
    assert_eq!(v.field_u64("b"), Some(7));
    assert_eq!(v.field_array("c").map(|a| a.len()), Some(1));
    assert!(v.get("missing").is_none());
    assert_eq!(v.field_str_or("missing", "Unknown"), "Unknown");
    assert!(s("x").get("a").is_none());
}

#[test]
fn jellyfin_client_trims_trailing_slashes() {
    let c = JellyfinClient::new("http://host:8096//".to_string(), "KEY".to_string(), "U1".to_string());
    assert_eq!(c.server_url, "http://host:8096");
    assert_eq!(c.get_stream_url("V9"), "http://host:8096/Videos/V9/stream?api_key=KEY");
    assert_eq!(c.views_request_url(), "http://host:8096/Users/U1/Views");
    assert_eq!(
        c.items_request_url("L2"),
        "http://host:8096/Users/U1/Items?ParentId=L2&IncludeItemTypes=Movie,Series,Episode&Recursive=true"
    );
    assert_eq!(c.thumbnail_request_url("V9"), "http://host:8096/Items/V9/Images/Primary?maxHeight=200");
    assert_eq!(info_request_url("http://h/"), "http://h/System/Info/Public");
}

#[test]
fn jellyfin_server_info() {
    let info = obj(vec![("ServerName", s("Home")), ("Version", s("10.8"))]);
    let srv = server_from_info(&info, "http://h/");
    assert_eq!(srv.name, "Home");
    assert_eq!(srv.version, "10.8");
    assert_eq!(srv.url, "http://h/");
    let srv2 = server_from_info(&obj(vec![]), "u");
    assert_eq!(srv2.name, "Unknown");
    assert_eq!(srv2.version, "Unknown");
}

#[test]
fn jellyfin_libraries_keep_movies_and_series() {
    let json = obj(vec![(
        "Items",
        JsonValue::Array(vec![
            obj(vec![("Id", s("1")), ("Name", s("Films")), ("CollectionType", s("movies"))]),
            obj(vec![("Id", s("2")), ("Name", s("Music")), ("CollectionType", s("music"))]),
            obj(vec![("CollectionType", s("tvshows"))]),
            obj(vec![("Id", s("4")), ("Name", s("Mixed"))]),
        ]),
    )]);
    let libs = libraries_from_json(&json);
    assert_eq!(libs.len(), 2);
    assert_eq!(libs[0].id, "1");
    assert_eq!(libs[0].name, "Films");
    assert_eq!(libs[0].item_type, "movies");
    assert_eq!(libs[1].id, "");
    assert_eq!(libs[1].name, "Unknown");
    assert_eq!(libs[1].item_type, "tvshows");
    assert!(libs[1].thumbnail_url.is_none());
    assert!(libraries_from_json(&obj(vec![])).is_empty());
}

#[test]
fn jellyfin_videos() {
    let c = JellyfinClient::new("http://h".to_string(), "K".to_string(), "U".to_string());
    let json = obj(vec![(
        "Items",
        JsonValue::Array(vec![
            obj(vec![("Id", s("a")), ("Name", s("Film")), ("Type", s("Movie")), ("Overview", s("Plot")), ("RunTimeTicks", n(600))]),
            obj(vec![]),
        ]),
    )]);
    let vids = c.videos_from_json(&json);
    assert_eq!(vids.len(), 2);
    assert_eq!(vids[0].item_type, "Movie");
    assert_eq!(vids[0].overview.as_deref(), Some("Plot"));
    assert_eq!(vids[0].run_time_ticks, Some(600));
    assert_eq!(vids[0].thumbnail_url.as_deref(), Some("http://h/Items/a/Images/Primary?maxHeight=200"));
    assert_eq!(vids[1].id, "");
    assert_eq!(vids[1].name, "Unknown");
    assert_eq!(vids[1].item_type, "Unknown");
    assert_eq!(vids[1].overview, None);
    assert_eq!(vids[1].thumbnail_url.as_deref(), Some("http://h/Items//Images/Primary?maxHeight=200"));
}

#[test]
fn youtube_durations() {
    assert_eq!(format_duration(None), "Unknown");
    assert_eq!(format_duration(Some(0)), "0:00");
    assert_eq!(format_duration(Some(59)), "0:59");
    assert_eq!(format_duration(Some(61)), "1:01");
    assert_eq!(format_duration(Some(3600)), "1:00:00");
    assert_eq!(format_duration(Some(3725)), "1:02:05");
    assert_eq!(format_duration(Some(36000 * 3 + 600)), "30:10:00");
    assert_eq!(format_hms(0, 12, 3), "12:03");
}

#[test]
fn youtube_video_from_json_line() {
    let v = obj(vec![
        ("id", s("abc")),
        ("title", s("Song")),
        ("channel", s("Band")),
        ("duration", JsonValue::Number(JsonNumber { as_u64: None, whole: 215 })),
    ]);
    let video = video_from_json(&v);
    assert_eq!(video.id, "abc");
    assert_eq!(video.title, "Song");
    assert_eq!(video.channel, "Band");
    assert_eq!(video.duration, "3:35");
    assert_eq!(video.thumbnail, "https://img.youtube.com/vi/abc/mqdefault.jpg");
    assert_eq!(video.url, "https://www.youtube.com/watch?v=abc");
    let empty = video_from_json(&obj(vec![]));
    assert_eq!(empty.title, "Unknown");
    assert_eq!(empty.channel, "Unknown");
    assert_eq!(empty.duration, "Unknown");
    assert_eq!(empty.url, "https://www.youtube.com/watch?v=");
    let result = search_result_from_json(&vec![v, obj(vec![])]);
    assert_eq!(result.videos.len(), 2);
    assert!(result.next_page_token.is_none());
}

#[test]
fn youtube_output_lines() {
    let lines = output_lines("{\"a\":1}\r\n\n   \n{\"b\":2}");
    assert_eq!(lines, vec!["{\"a\":1}".to_string(), "{\"b\":2}".to_string()]);
    assert!(output_lines("").is_empty());
    assert_eq!(output_lines(" x \n"), vec![" x ".to_string()]);
}

#[test]
fn youtube_stream_url() {
    assert_eq!(stream_url_from_output("  https://cdn/v.mp4 \nhttps://cdn/a.m4a\n"), Ok("https://cdn/v.mp4".to_string()));
    assert_eq!(stream_url_from_output(""), Err("No stream URL found".to_string()));
    assert_eq!(stream_url_from_output("\nhttps://x"), Err("No stream URL found".to_string()));
}

#[test]
fn youtube_command_lines() {
    assert_eq!(
        search_args("cats"),
        vec!["--flat-playlist", "--print-json", "--skip-download", "--playlist-end", "20", "ytsearch20:cats"]
    );
    assert_eq!(
        stream_args("abc"),
        vec!["-f", "bestvideo[ext=mp4]+bestaudio[ext=m4a]/mp4", "-g", "https://www.youtube.com/watch?v=abc"]
    );
}

#[test]
fn local_extensions() {
    assert!(is_video_extension("mp4"));
    assert!(is_video_extension("MKV"));
    assert!(is_video_extension("WebM"));
    assert!(!is_video_extension("mp3"));
    assert!(!is_video_extension(""));
}

#[test]
fn local_parse_u64() {
    assert_eq!(parse_u64("12345"), Some(12345));
    assert_eq!(parse_u64("+7"), Some(7));
    assert_eq!(parse_u64("007"), Some(7));
    assert_eq!(parse_u64("18446744073709551615"), Some(u64::MAX));
    assert_eq!(parse_u64("18446744073709551616"), None);
    assert_eq!(parse_u64(""), None);
    assert_eq!(parse_u64("+"), None);
    assert_eq!(parse_u64("-1"), None);
    assert_eq!(parse_u64("1.5"), None);
    assert_eq!(parse_u64(" 1"), None);
}

#[test]
fn local_probe_report() {
    let json = obj(vec![
        ("format", obj(vec![("duration", s("63.5")), ("size", s("1048576"))])),
        (
            "streams",
            JsonValue::Array(vec![
                obj(vec![("codec_type", s("audio")), ("codec_name", s("aac"))]),
                obj(vec![("codec_type", s("video")), ("codec_name", s("h264")), ("width", n(1920)), ("height", n(1080))]),
                obj(vec![("codec_type", s("video")), ("codec_name", s("mjpeg")), ("width", n(1)), ("height", n(1))]),
            ]),
        ),
    ]);
    let p = probe_from_json(&json, "/v/a.mkv".to_string(), Some("a.mkv".to_string())).unwrap();
    assert_eq!(p.path, "/v/a.mkv");
    assert_eq!(p.title, "a.mkv");
    assert_eq!(p.duration_text.as_deref(), Some("63.5"));
    assert_eq!(p.size, 1048576);
    assert_eq!(p.width, 1920);
    assert_eq!(p.height, 1080);
    assert_eq!(p.codec, "h264");

    let bare = probe_from_json(&obj(vec![("format", obj(vec![("size", s("x"))]))]), "p".to_string(), None).unwrap();
    assert_eq!(bare.title, "Unknown");
    assert_eq!(bare.size, 0);
    assert_eq!(bare.width, 0);
    assert_eq!(bare.codec, "unknown");
    assert!(bare.duration_text.is_none());

    let wide = obj(vec![
        ("format", obj(vec![])),
        ("streams", JsonValue::Array(vec![obj(vec![("codec_type", s("video")), ("width", n(4294967297))])])),
    ]);
    assert_eq!(probe_from_json(&wide, "p".to_string(), None).unwrap().width, 1);

    assert_eq!(
        probe_from_json(&obj(vec![]), "p".to_string(), None).err(),
        Some("No format info".to_string())
    );
}

#[test]
fn player_command_line() {
    assert!(kitty_detected("xterm-kitty", false));
    assert!(kitty_detected("", true));
    assert!(!kitty_detected("xterm-256color", false));
    assert_eq!(socket_file_name(4242), "aetherstream-video-4242");
    assert_eq!(default_kitty_size(), (80, 24));
    assert_eq!(
        mpv_args("http://x", 70, false, 80, 24, "/tmp/s"),
        vec!["http://x", "--volume=70", "--no-terminal", "--input-ipc-server=/tmp/s"]
    );
    assert_eq!(
        mpv_args("u", 0, true, 120, 40, "p"),
        vec![
            "u",
            "--volume=0",
            "--no-terminal",
            "--vo=kitty",
            "--no-keepaspect",
            "--vo-kitty-cols=120",
            "--vo-kitty-rows=40",
            "--input-ipc-server=p"
        ]
    );
}

#[test]
fn decimal_text_reads_back() {
    for n in [0u32, 7, 10, 4242, u32::MAX] {
        let name = socket_file_name(n);
        let digits = name.strip_prefix("aetherstream-video-").unwrap();
        assert_eq!(parse_u64(digits), Some(n as u64));
    }
}

#[test]
fn client_url_never_ends_with_slash() {
    for url in ["http://h", "http://h/", "http://h///", "/", ""] {
        let c = JellyfinClient::new(url.to_string(), String::new(), String::new());
        assert!(!c.server_url.ends_with('/'));
        let again = JellyfinClient::new(c.server_url.clone(), String::new(), String::new());
        assert_eq!(again.server_url, c.server_url);
    }
}

#[test]
fn jellyfin_discovery_answers() {
    assert_eq!(discovery_message(), "who is JellyfinServer?");
    let replies = vec![
        obj(vec![("Address", s("http://10.0.0.2:8096")), ("Name", s("A"))]),
        obj(vec![("Name", s("no address"))]),
        obj(vec![("Address", s("http://10.0.0.3:8096"))]),
        obj(vec![("Address", s("http://10.0.0.2:8096"))]),
        s("garbage"),
    ];
    assert_eq!(
        discovery_addresses(&replies),
        vec!["http://10.0.0.2:8096".to_string(), "http://10.0.0.3:8096".to_string()]
    );
    assert!(discovery_addresses(&vec![]).is_empty());
}

#[test]
fn local_scan_decisions() {
    assert_eq!(scan_action(true, Some("mp4")), ScanAction::Descend);
    assert_eq!(scan_action(false, Some("MOV")), ScanAction::Probe);
    assert_eq!(scan_action(false, Some("txt")), ScanAction::Skip);
    assert_eq!(scan_action(false, None), ScanAction::Skip);
    assert_eq!(
        ffprobe_options(),
        vec!["-v", "quiet", "-print_format", "json", "-show_format", "-show_streams"]
    );
}
