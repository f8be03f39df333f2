//! YouTube through `yt-dlp`: the command lines, and what its output is
//! turned into. Running `yt-dlp` and decoding its JSON lines is left to the
//! application.
use vstd::prelude::*;
use crate::json::{field_str_or, json_get, json_whole, JsonValue};
use crate::text::{
    chars_of, decimal, decimal2, digit_char, is_space_char, lemma_decimal2_digits, line_len, owned,
    push_decimal, push_str, string_from_range, trim, trim_range,
};

verus! {

#[derive(Debug, Clone)]
pub struct YouTubeVideo {
    pub id: String,
    pub title: String,
    pub channel: String,
    pub duration: String,
    pub thumbnail: String,
    pub url: String,
}

#[derive(Debug, Clone)]
pub struct YouTubeSearchResult {
    pub videos: Vec<YouTubeVideo>,
    pub next_page_token: Option<String>,
}

#[verifier::ext_equal]
pub struct YouTubeVideoModel {
    pub id: Seq<char>,
    pub title: Seq<char>,
    pub channel: Seq<char>,
    pub duration: Seq<char>,
    pub thumbnail: Seq<char>,
    pub url: Seq<char>,
}

impl View for YouTubeVideo {
    type V = YouTubeVideoModel;

    open spec fn view(&self) -> YouTubeVideoModel {
        YouTubeVideoModel {
            id: self.id@,
            title: self.title@,
            channel: self.channel@,
            duration: self.duration@,
            thumbnail: self.thumbnail@,
            url: self.url@,
        }
    }
}

// ---------------------------------------------------------------------------
// Specification
// ---------------------------------------------------------------------------

/// A length given as hours, minutes and seconds: `h:mm:ss` when there are
/// hours, `m:ss` otherwise.
pub open spec fn hms_text(hours: nat, minutes: nat, secs: nat) -> Seq<char> {
    if hours > 0 {
        decimal(hours) + ":"@ + decimal2(minutes) + ":"@ + decimal2(secs)
    } else {
        decimal(minutes) + ":"@ + decimal2(secs)
    }
}

/// A length in whole seconds as text; "Unknown" when not known.
pub open spec fn duration_text(seconds: Option<u64>) -> Seq<char> {
    match seconds {
        Some(s) => hms_text((s / 3600) as nat, ((s % 3600) / 60) as nat, (s % 60) as nat),
        None => "Unknown"@,
    }
}

/// The page of video `id`.
pub open spec fn watch_url(id: Seq<char>) -> Seq<char> {
    "https://www.youtube.com/watch?v="@ + id
}

/// The video that one JSON line of a search describes.
pub open spec fn video_of(v: JsonValue) -> YouTubeVideoModel {
    let id = field_str_or(v, "id"@, ""@);
    YouTubeVideoModel {
        id: id,
        title: field_str_or(v, "title"@, "Unknown"@),
        channel: field_str_or(v, "channel"@, "Unknown"@),
        duration: duration_text(
            match json_get(v, "duration"@) {
                Some(d) => json_whole(d),
                None => None,
            },
        ),
        thumbnail: "https://img.youtube.com/vi/"@ + id + "/mqdefault.jpg"@,
        url: watch_url(id),
    }
}

/// A line without the `'\r'` of a `"\r\n"` line ending.
pub open spec fn strip_cr(l: Seq<char>) -> Seq<char> {
    if l.len() > 0 && l.last() == '\r' {
        l.drop_last()
    } else {
        l
    }
}

/// The lines of `s` (as `str::lines` yields them) that are not blank.
pub open spec fn nonblank_lines(s: Seq<char>) -> Seq<Seq<char>>
    decreases s.len(),
{
    let k = line_len(s);
    if k < s.len() {
        let l = strip_cr(s.subrange(0, k as int));
        let rest = nonblank_lines(s.subrange((k + 1) as int, s.len() as int));
        if trim(l).len() > 0 {
            seq![l] + rest
        } else {
            rest
        }
    } else if trim(s).len() > 0 {
        seq![s]
    } else {
        Seq::empty()
    }
}

/// The first line of `s`, trimmed.
pub open spec fn first_line_trimmed(s: Seq<char>) -> Seq<char> {
    trim(s.subrange(0, line_len(s) as int))
}

// ---------------------------------------------------------------------------
// Laws
// ---------------------------------------------------------------------------

/// A length made of `hours`, `minutes` and `secs` (minutes and seconds
/// under 60) is shown as exactly those parts.
pub proof fn law_duration_shows_its_parts(hours: u64, minutes: u64, secs: u64)
    requires
        minutes < 60,
        secs < 60,
        hours * 3600 + minutes * 60 + secs <= u64::MAX,
    ensures
        duration_text(Some((hours * 3600 + minutes * 60 + secs) as u64)) == hms_text(
            hours as nat,
            minutes as nat,
            secs as nat,
        ),
{
    let t = (hours * 3600 + minutes * 60 + secs) as u64;
    assert(t / 3600 == hours && (t % 3600) / 60 == minutes && t % 60 == secs) by (nonlinear_arith)
        requires
            minutes < 60,
            secs < 60,
            t == hours * 3600 + minutes * 60 + secs,
    ;
}

/// The fields of a length's text: with hours, the hours in decimal, a
/// colon, the minutes as exactly two digits, a colon and the seconds as
/// exactly two digits; without hours, the minutes in decimal, a colon and
/// the seconds as exactly two digits.
pub proof fn law_hms_fields(hours: nat, minutes: nat, secs: nat)
    requires
        minutes < 60,
        secs < 60,
    ensures
        ({
            let t = hms_text(hours, minutes, secs);
            let n = t.len() as int;
            &&& n >= 3
            &&& t[n - 3] == ':'
            &&& t[n - 2] == digit_char(secs / 10)
            &&& t[n - 1] == digit_char(secs % 10)
            &&& hours > 0 ==> {
                &&& n == decimal(hours).len() + 6
                &&& t.subrange(0, n - 6) == decimal(hours)
                &&& t[n - 6] == ':'
                &&& t[n - 5] == digit_char(minutes / 10)
                &&& t[n - 4] == digit_char(minutes % 10)
            }
            &&& hours == 0 ==> {
                &&& n == decimal(minutes).len() + 3
                &&& t.subrange(0, n - 3) == decimal(minutes)
            }
        }),
{
    lemma_decimal2_digits(minutes);
    lemma_decimal2_digits(secs);
    let t = hms_text(hours, minutes, secs);
    let n = t.len() as int;
    if hours > 0 {
        let d = decimal(hours);
        assert(t =~= d + seq![':', digit_char(minutes / 10), digit_char(minutes % 10), ':', digit_char(secs / 10), digit_char(secs % 10)]) by {
            reveal_strlit(":");
        }
        assert(t.subrange(0, n - 6) =~= d);
    } else {
        let d = decimal(minutes);
        assert(t =~= d + seq![':', digit_char(secs / 10), digit_char(secs % 10)]) by {
            reveal_strlit(":");
        }
        assert(t.subrange(0, n - 3) =~= d);
    }
}

// ---------------------------------------------------------------------------
// Executable functions
// ---------------------------------------------------------------------------

/// `h:mm:ss` or `m:ss`.
pub fn format_hms(hours: u64, minutes: u64, secs: u64) -> (r: String)
    ensures
        r@ == hms_text(hours as nat, minutes as nat, secs as nat),
{
    let mut r = String::new();
    if hours > 0 {
        push_decimal(&mut r, hours);
        push_str(&mut r, ":");
        push_two_digits(&mut r, minutes);
    } else {
        push_decimal(&mut r, minutes);
    }
    push_str(&mut r, ":");
    push_two_digits(&mut r, secs);
    r
}

/// Appends `n` padded to two digits.
fn push_two_digits(s: &mut String, n: u64)
    ensures
        final(s)@ == old(s)@ + decimal2(n as nat),
{
    if n < 10 {
        push_str(s, "0");
        push_decimal(s, n);
        proof {
            reveal_strlit("0");
        }
        assert(decimal(n as nat) == seq![crate::text::digit_char(n as nat)]);
    } else {
        push_decimal(s, n);
    }
}

/// `format_duration`: a length in whole seconds as text.
pub fn format_duration(seconds: Option<u64>) -> (r: String)
    ensures
        r@ == duration_text(seconds),
{
    match seconds {
        Some(s) => format_hms(s / 3600, (s % 3600) / 60, s % 60),
        None => owned("Unknown"),
    }
}

/// The page of video `id`.
pub fn watch_page_url(id: &str) -> (r: String)
    ensures
        r@ == watch_url(id@),
{
    let mut r = owned("https://www.youtube.com/watch?v=");
    push_str(&mut r, id);
    r
}

/// The video that one JSON line of a search describes.
pub fn video_from_json(v: &JsonValue) -> (r: YouTubeVideo)
    ensures
        r@ == video_of(*v),
{
    let id = v.field_str_or("id", "");
    let title = v.field_str_or("title", "Unknown");
    let url = watch_page_url(id.as_str());
    let channel = v.field_str_or("channel", "Unknown");
    let seconds = match v.get("duration") {
        Some(d) => d.as_whole(),
        None => None,
    };
    let duration = format_duration(seconds);
    let mut thumbnail = owned("https://img.youtube.com/vi/");
    push_str(&mut thumbnail, id.as_str());
    push_str(&mut thumbnail, "/mqdefault.jpg");
    let r = YouTubeVideo { id, title, channel, duration, thumbnail, url };
    assert(r@ =~= video_of(*v));
    r
}

/// `search_youtube`'s result from the decoded JSON lines of `yt-dlp`'s
/// output: one video per line, in order, and no next page.
pub fn search_result_from_json(lines: &Vec<JsonValue>) -> (r: YouTubeSearchResult)
    ensures
        r.videos@.map_values(|x: YouTubeVideo| x@) == lines@.map_values(|v: JsonValue| video_of(v)),
        r.next_page_token is None,
{
    let mut videos: Vec<YouTubeVideo> = Vec::new();
    let mut i: usize = 0;
    while i < lines.len()
        invariant
            i <= lines@.len(),
            videos@.map_values(|x: YouTubeVideo| x@) == lines@.subrange(0, i as int).map_values(
                |v: JsonValue| video_of(v),
            ),
        decreases lines.len() - i,
    {
        let v = video_from_json(&lines[i]);
        let ghost before = videos@;
        videos.push(v);
        assert(videos@.map_values(|x: YouTubeVideo| x@) =~= before.map_values(
            |x: YouTubeVideo| x@,
        ).push(v@));
        assert(lines@.subrange(0, i + 1).map_values(|v: JsonValue| video_of(v)) =~= lines@.subrange(
            0,
            i as int,
        ).map_values(|v: JsonValue| video_of(v)).push(video_of(lines@[i as int])));
        i = i + 1;
    }
    assert(lines@.subrange(0, lines@.len() as int) == lines@);
    YouTubeSearchResult { videos, next_page_token: None }
}

/// The lines of `yt-dlp`'s output that are not blank, in order (each is
/// one JSON document to decode).
pub fn output_lines(stdout: &str) -> (r: Vec<String>)
    ensures
        r@.map_values(|l: String| l@) == nonblank_lines(stdout@),
{
    let v = chars_of(stdout);
    let n = v.len();
    let mut r: Vec<String> = Vec::new();
    let mut pos: usize = 0;
    assert(v@.subrange(0, n as int) == v@);
    loop
        invariant_except_break
            pos <= n == v@.len(),
            v@ == stdout@,
            nonblank_lines(v@) == r@.map_values(|l: String| l@) + nonblank_lines(
                v@.subrange(pos as int, n as int),
            ),
        ensures
            nonblank_lines(v@) == r@.map_values(|l: String| l@),
            v@ == stdout@,
        decreases n - pos,
    {
        let ghost rest = v@.subrange(pos as int, n as int);
        let ghost before = r@.map_values(|l: String| l@);
        let mut j = pos;
        while j < n && v[j] != '\n'
            invariant
                pos <= j <= n == v@.len(),
                rest == v@.subrange(pos as int, n as int),
                line_len(rest) == (j - pos) + line_len(v@.subrange(j as int, n as int)),
            decreases n - j,
        {
            assert(v@.subrange(j as int, n as int).drop_first() == v@.subrange(j + 1, n as int));
            j = j + 1;
        }
        let mut e = j;
        if j < n && e > pos && v[e - 1] == '\r' {
            e = e - 1;
        }
        let (ta, tb) = trim_range(&v, pos, e);
        if j == n {
            assert(line_len(rest) == rest.len());
            if ta < tb {
                r.push(string_from_range(&v, pos, j));
            }
            assert(r@.map_values(|l: String| l@) =~= before + nonblank_lines(rest));
            break ;
        }
        let ghost k = line_len(rest);
        assert(rest.subrange(0, k as int) == v@.subrange(pos as int, j as int));
        assert(strip_cr(rest.subrange(0, k as int)) == v@.subrange(pos as int, e as int));
        assert(rest.subrange((k + 1) as int, rest.len() as int) == v@.subrange(j + 1, n as int));
        if ta < tb {
            r.push(string_from_range(&v, pos, e));
            assert(r@.map_values(|l: String| l@) =~= before.push(v@.subrange(pos as int, e as int)));
        }
        pos = j + 1;
    }
    r
}

/// `get_stream_url`'s result from `yt-dlp -g`'s output: its first line,
/// trimmed, or an error when that is empty.
pub fn stream_url_from_output(stdout: &str) -> (r: Result<String, String>)
    ensures
        match r {
            Ok(u) => u@ == first_line_trimmed(stdout@) && u@.len() > 0,
            Err(e) => first_line_trimmed(stdout@).len() == 0 && e@ == "No stream URL found"@,
        },
{
    let v = chars_of(stdout);
    let n = v.len();
    let mut j: usize = 0;
    assert(v@.subrange(0, n as int) == v@);
    while j < n && v[j] != '\n'
        invariant
            j <= n == v@.len(),
            v@ == stdout@,
            line_len(v@) == j + line_len(v@.subrange(j as int, n as int)),
        decreases n - j,
    {
        assert(v@.subrange(j as int, n as int).drop_first() == v@.subrange(j + 1, n as int));
        j = j + 1;
    }
    let (a, b) = trim_range(&v, 0, j);
    if a == b {
        Err(owned("No stream URL found"))
    } else {
        Ok(string_from_range(&v, a, b))
    }
}

/// The arguments of the `yt-dlp` search for `query` (twenty results, one
/// JSON line each).
pub fn search_args(query: &str) -> (r: Vec<String>)
    ensures
        r@.map_values(|a: String| a@) == seq![
            "--flat-playlist"@,
            "--print-json"@,
            "--skip-download"@,
            "--playlist-end"@,
            "20"@,
            "ytsearch20:"@ + query@,
        ],
{
    let mut q = owned("ytsearch20:");
    push_str(&mut q, query);
    let r = vec![
        owned("--flat-playlist"),
        owned("--print-json"),
        owned("--skip-download"),
        owned("--playlist-end"),
        owned("20"),
        q,
    ];
    assert(r@.map_values(|a: String| a@) =~= seq![
        "--flat-playlist"@,
        "--print-json"@,
        "--skip-download"@,
        "--playlist-end"@,
        "20"@,
        "ytsearch20:"@ + query@,
    ]);
    r
}

/// The arguments of the `yt-dlp` call that prints the direct stream URL of
/// video `video_id`.
pub fn stream_args(video_id: &str) -> (r: Vec<String>)
    ensures
        r@.map_values(|a: String| a@) == seq![
            "-f"@,
            "bestvideo[ext=mp4]+bestaudio[ext=m4a]/mp4"@,
            "-g"@,
            watch_url(video_id@),
        ],
{
    let r = vec![
        owned("-f"),
        owned("bestvideo[ext=mp4]+bestaudio[ext=m4a]/mp4"),
        owned("-g"),
        watch_page_url(video_id),
    ];
    assert(r@.map_values(|a: String| a@) =~= seq![
        "-f"@,
        "bestvideo[ext=mp4]+bestaudio[ext=m4a]/mp4"@,
        "-g"@,
        watch_url(video_id@),
    ]);
    r
}

} // verus!
