//! Local video files: which files count as videos, and what `ffprobe`'s
//! JSON report says about one. Walking directories, running `ffprobe` and
//! the floating-point duration are left to the application.
use vstd::prelude::*;
use crate::json::{field_array, field_str, field_str_or, field_u64, json_get, JsonValue};
use crate::text::{chars_of, decimal, digit_char, lowercase, opt_view, owned, str_eq, to_lowercase};

verus! {

/// What the library reads of one probed file.
#[derive(Debug, Clone)]
pub struct ProbeInfo {
    pub path: String,
    pub title: String,
    /// The container's duration as `ffprobe` wrote it (seconds, a decimal
    /// fraction), if any.
    pub duration_text: Option<String>,
    pub size: u64,
    pub width: u32,
    pub height: u32,
    pub codec: String,
}

#[verifier::ext_equal]
pub struct ProbeModel {
    pub path: Seq<char>,
    pub title: Seq<char>,
    pub duration_text: Option<Seq<char>>,
    pub size: u64,
    pub width: u32,
    pub height: u32,
    pub codec: Seq<char>,
}

impl View for ProbeInfo {
    type V = ProbeModel;

    open spec fn view(&self) -> ProbeModel {
        ProbeModel {
            path: self.path@,
            title: self.title@,
            duration_text: opt_view(self.duration_text),
            size: self.size,
            width: self.width,
            height: self.height,
            codec: self.codec@,
        }
    }
}

// ---------------------------------------------------------------------------
// Specification
// ---------------------------------------------------------------------------

/// The extensions of video files, in lower case.
pub open spec fn is_video_ext(ext_lower: Seq<char>) -> bool {
    ||| ext_lower == "mp4"@
    ||| ext_lower == "mkv"@
    ||| ext_lower == "avi"@
    ||| ext_lower == "mov"@
    ||| ext_lower == "webm"@
    ||| ext_lower == "flv"@
    ||| ext_lower == "wmv"@
}

pub open spec fn is_digit(c: char) -> bool {
    '0' <= c && c <= '9'
}

/// The number that the decimal digits `d` write.
pub open spec fn digits_value(d: Seq<char>) -> nat
    decreases d.len(),
{
    if d.len() == 0 {
        0
    } else {
        digits_value(d.drop_last()) * 10 + ((d.last() as int) - 48) as nat
    }
}

/// The digits of a number text: without its leading `+`, if any.
pub open spec fn unsigned_digits(s: Seq<char>) -> Seq<char> {
    if s.len() > 0 && s[0] == '+' {
        s.drop_first()
    } else {
        s
    }
}

/// Every character of `d` is a decimal digit.
pub open spec fn all_digits(d: Seq<char>) -> bool {
    forall|i: int| 0 <= i < d.len() ==> #[trigger] is_digit(d[i])
}

/// `u64::from_str`: an optional `+` then one or more decimal digits, whose
/// value fits in `u64`.
pub open spec fn parse_u64_value(s: Seq<char>) -> Option<u64> {
    let d = unsigned_digits(s);
    if d.len() > 0 && all_digits(d) && digits_value(d) <= u64::MAX {
        Some(digits_value(d) as u64)
    } else {
        None
    }
}

/// The first stream whose `codec_type` is `video`.
pub open spec fn first_video_stream(streams: Seq<JsonValue>) -> Option<JsonValue>
    decreases streams.len(),
{
    if streams.len() == 0 {
        None
    } else if field_str_or(streams[0], "codec_type"@, ""@) == "video"@ {
        Some(streams[0])
    } else {
        first_video_stream(streams.drop_first())
    }
}

/// A dimension of the video stream: the number, cut to 32 bits, or 0.
pub open spec fn dimension(stream: Option<JsonValue>, key: Seq<char>) -> u32 {
    match stream {
        Some(st) => (match field_u64(st, key) {
            Some(w) => w,
            None => 0,
        }) as u32,
        None => 0,
    }
}

/// What `ffprobe`'s report `json` on the file at `path` (named
/// `file_name`) says; an error when it has no `format` section.
pub open spec fn probe_of(json: JsonValue, path: Seq<char>, file_name: Option<Seq<char>>) -> Result<
    ProbeModel,
    Seq<char>,
> {
    match json_get(json, "format"@) {
        None => Err("No format info"@),
        Some(format) => {
            let stream = match field_array(json, "streams"@) {
                Some(ss) => first_video_stream(ss),
                None => None,
            };
            Ok(
                ProbeModel {
                    path: path,
                    title: match file_name {
                        Some(n) => n,
                        None => "Unknown"@,
                    },
                    duration_text: field_str(format, "duration"@),
                    size: match field_str(format, "size"@) {
                        Some(t) => match parse_u64_value(t) {
                            Some(n) => n,
                            None => 0,
                        },
                        None => 0,
                    },
                    width: dimension(stream, "width"@),
                    height: dimension(stream, "height"@),
                    codec: match stream {
                        Some(st) => field_str_or(st, "codec_name"@, "unknown"@),
                        None => "unknown"@,
                    },
                },
            )
        },
    }
}

// ---------------------------------------------------------------------------
// Laws
// ---------------------------------------------------------------------------

proof fn lemma_decimal_digits(n: nat)
    ensures
        decimal(n).len() > 0,
        all_digits(decimal(n)),
        digits_value(decimal(n)) == n,
    decreases n,
{
    if n >= 10 {
        lemma_decimal_digits(n / 10);
        let d = decimal(n);
        assert(d.drop_last() == decimal(n / 10));
        assert(d.last() == digit_char(n % 10));
        assert((digit_char(n % 10) as int) - 48 == n % 10);
        assert((n / 10) * 10 + n % 10 == n);
        assert(digits_value(d) == digits_value(decimal(n / 10)) * 10 + ((d.last() as int) - 48) as nat);
        assert(digits_value(decimal(n / 10)) == n / 10);
        assert(digits_value(d) == n);
        assert(all_digits(d));
    } else {
        let d = decimal(n);
        assert(d.drop_last() =~= Seq::<char>::empty());
        assert((digit_char(n) as int) - 48 == n);
        assert(d.len() == 1 && d.last() == digit_char(n));
        assert(digits_value(d.drop_last()) == 0);
        assert(digits_value(d) == n);
        assert(all_digits(d));
        assert forall|i: int| 0 <= i < d.len() implies #[trigger] is_digit(d[i]) by {
            if i < d.len() - 1 {
                assert(d[i] == decimal(n / 10)[i]);
            }
        }
    }
}

/// What `u64`'s decimal text (as `push_decimal` writes it) says is read
/// back by `parse_u64`.
pub proof fn law_parse_u64_reads_decimal(n: u64)
    ensures
        parse_u64_value(decimal(n as nat)) == Some(n),
{
    lemma_decimal_digits(n as nat);
    let d = decimal(n as nat);
    assert(is_digit(d[0]));
    assert(unsigned_digits(d) == d);
}

/// The video extensions (in lower case) are exactly mp4, mkv, avi, mov,
/// webm, flv and wmv.
pub proof fn law_video_extensions(e: Seq<char>)
    ensures
        is_video_ext("mp4"@),
        is_video_ext("mkv"@),
        is_video_ext("avi"@),
        is_video_ext("mov"@),
        is_video_ext("webm"@),
        is_video_ext("flv"@),
        is_video_ext("wmv"@),
        e != "mp4"@ && e != "mkv"@ && e != "avi"@ && e != "mov"@ && e != "webm"@ && e != "flv"@
            && e != "wmv"@ ==> !is_video_ext(e),
{
}

// ---------------------------------------------------------------------------
// Executable functions
// ---------------------------------------------------------------------------

/// Whether a lower-case extension is one of a video file.
pub fn is_video_ext_lowered(ext_lower: &str) -> (r: bool)
    ensures
        r == is_video_ext(ext_lower@),
{
    str_eq(ext_lower, "mp4") || str_eq(ext_lower, "mkv") || str_eq(ext_lower, "avi") || str_eq(
        ext_lower,
        "mov",
    ) || str_eq(ext_lower, "webm") || str_eq(ext_lower, "flv") || str_eq(ext_lower, "wmv")
}

/// Whether a file with extension `ext` is a video (the extension compared
/// in lower case).
pub fn is_video_extension(ext: &str) -> (r: bool)
    ensures
        r == is_video_ext(lowercase(ext@)),
{
    let lower = to_lowercase(ext);
    is_video_ext_lowered(lower.as_str())
}

/// `str::parse::<u64>`, with `None` for `Err`.
pub fn parse_u64(s: &str) -> (r: Option<u64>)
    ensures
        r == parse_u64_value(s@),
{
    let v = chars_of(s);
    let n = v.len();
    let start: usize = if n > 0 && v[0] == '+' {
        1
    } else {
        0
    };
    let ghost d = v@.subrange(start as int, n as int);
    assert(d == unsigned_digits(s@));
    if start == n {
        return None;
    }
    let mut acc: u64 = 0;
    let mut overflow = false;
    let mut i = start;
    assert(v@.subrange(start as int, start as int) =~= Seq::<char>::empty());
    while i < n
        invariant
            start <= i <= n == v@.len(),
            v@ == s@,
            d == v@.subrange(start as int, n as int),
            d == unsigned_digits(s@),
            forall|k: int| start <= k < i ==> #[trigger] is_digit(v@[k]),
            !overflow ==> acc == digits_value(v@.subrange(start as int, i as int)),
            overflow ==> digits_value(v@.subrange(start as int, i as int)) > u64::MAX,
        decreases n - i,
    {
        let c = v[i];
        if !('0' <= c && c <= '9') {
            assert(d[i - start] == c);
            assert(!is_digit(d[i - start]));
            return None;
        }
        assert(v@.subrange(start as int, i + 1).drop_last() == v@.subrange(start as int, i as int));
        let digit = (c as u32 - 48) as u64;
        if !overflow {
            match acc.checked_mul(10) {
                Some(m) => match m.checked_add(digit) {
                    Some(x) => {
                        acc = x;
                    },
                    None => {
                        overflow = true;
                    },
                },
                None => {
                    overflow = true;
                },
            }
        }
        i = i + 1;
    }
    assert(v@.subrange(start as int, n as int) == d);
    assert forall|k: int| 0 <= k < d.len() implies #[trigger] is_digit(d[k]) by {
        assert(d[k] == v@[start + k]);
    }
    if overflow {
        None
    } else {
        Some(acc)
    }
}

/// The first stream of `streams` whose `codec_type` is `video`.
fn find_video_stream(streams: &Vec<JsonValue>) -> (r: Option<&JsonValue>)
    ensures
        match r {
            Some(st) => first_video_stream(streams@) == Some(*st),
            None => first_video_stream(streams@) is None,
        },
{
    let mut i: usize = 0;
    assert(streams@.skip(0) == streams@);
    while i < streams.len()
        invariant
            i <= streams@.len(),
            first_video_stream(streams@) == first_video_stream(streams@.skip(i as int)),
        decreases streams.len() - i,
    {
        let st = &streams[i];
        assert(streams@.skip(i as int)[0] == *st);
        let t = st.field_str_or("codec_type", "");
        if str_eq(t.as_str(), "video") {
            return Some(st);
        }
        assert(streams@.skip(i as int).drop_first() == streams@.skip(i + 1));
        i = i + 1;
    }
    None
}

/// A dimension of the video stream: the number, cut to 32 bits, or 0.
fn stream_dimension(stream: Option<&JsonValue>, key: &str) -> (r: u32)
    ensures
        r == dimension(
            match stream {
                Some(st) => Some(*st),
                None => None,
            },
            key@,
        ),
{
    match stream {
        Some(st) => {
            let w = match st.field_u64(key) {
                Some(w) => w,
                None => 0,
            };
            w as u32
        },
        None => 0,
    }
}

/// `probe_video`'s result from `ffprobe`'s report `json` on the file at
/// `path` (named `file_name`), without the duration's floating-point
/// parts.
pub fn probe_from_json(json: &JsonValue, path: String, file_name: Option<String>) -> (r: Result<
    ProbeInfo,
    String,
>)
    ensures
        match r {
            Ok(p) => probe_of(*json, path@, opt_view(file_name)) == Ok::<ProbeModel, Seq<char>>(p@),
            Err(e) => probe_of(*json, path@, opt_view(file_name)) == Err::<ProbeModel, Seq<char>>(e@),
        },
{
    let format = match json.get("format") {
        Some(f) => f,
        None => {
            return Err(owned("No format info"));
        },
    };
    let stream = match json.field_array("streams") {
        Some(ss) => find_video_stream(ss),
        None => None,
    };
    let size = match format.field_str("size") {
        Some(t) => match parse_u64(t.as_str()) {
            Some(n) => n,
            None => 0,
        },
        None => 0,
    };
    let codec = match stream {
        Some(st) => st.field_str_or("codec_name", "unknown"),
        None => owned("unknown"),
    };
    let title = match file_name {
        Some(n) => n,
        None => owned("Unknown"),
    };
    let info = ProbeInfo {
        path,
        title,
        duration_text: format.field_str("duration"),
        size,
        width: stream_dimension(stream, "width"),
        height: stream_dimension(stream, "height"),
        codec,
    };
    Ok(info)
}

/// What a directory walk does with one entry.
#[derive(Debug, Clone, Copy, PartialEq, Eq, Structural)]
pub enum ScanAction {
    /// Walk into it later.
    Descend,
    /// Probe it as a video.
    Probe,
    /// Leave it.
    Skip,
}

/// `scan`'s decision for an entry: directories are walked into, files with
/// a video extension (compared in lower case) are probed, the rest is left.
pub fn scan_action(is_dir: bool, extension: Option<&str>) -> (r: ScanAction)
    ensures
        r == if is_dir {
            ScanAction::Descend
        } else {
            match extension {
                Some(e) => if is_video_ext(lowercase(e@)) {
                    ScanAction::Probe
                } else {
                    ScanAction::Skip
                },
                None => ScanAction::Skip,
            }
        },
{
    if is_dir {
        ScanAction::Descend
    } else {
        match extension {
            Some(e) => if is_video_extension(e) {
                ScanAction::Probe
            } else {
                ScanAction::Skip
            },
            None => ScanAction::Skip,
        }
    }
}

/// The options of the `ffprobe` call that reports on a file (the file's
/// path follows them): quiet, JSON, with the format and the streams.
pub fn ffprobe_options() -> (r: Vec<String>)
    ensures
        r@.map_values(|a: String| a@) == seq![
            "-v"@,
            "quiet"@,
            "-print_format"@,
            "json"@,
            "-show_format"@,
            "-show_streams"@,
        ],
{
    let r = vec![
        owned("-v"),
        owned("quiet"),
        owned("-print_format"),
        owned("json"),
        owned("-show_format"),
        owned("-show_streams"),
    ];
    assert(r@.map_values(|a: String| a@) =~= seq![
        "-v"@,
        "quiet"@,
        "-print_format"@,
        "json"@,
        "-show_format"@,
        "-show_streams"@,
    ]);
    r
}

} // verus!
