//! IPTV M3U playlist parser.
//!
//! A playlist is read line by line. An `#EXTINF:` line carries the
//! attributes (`tvg-id`, `group-title`, `tvg-logo`) and, after its last
//! comma, the name of the channel whose URL is the next line that is
//! neither blank nor a `#` directive.
use vstd::prelude::*;
use crate::text::{
    chars_eq, chars_lt, chars_of, clone_opt, find, find_from, find_in, has_prefix, has_prefix_in,
    is_space, lemma_str_lt_total, lemma_str_lt_transitive, lemma_trim_pad_back,
    lemma_trim_pad_front, line_len, matches_at, opt_view, rfind_char,
    rfind_char_in, str_lt, strictly_sorted, string_from_chars, string_from_range, trim, trim_range,
    vec_from_range,
};

verus! {

/// One channel of a playlist.
#[derive(Debug, Clone)]
pub struct Channel {
    pub name: String,
    pub url: String,
    pub group: Option<String>,
    pub logo: Option<String>,
    pub tvg_id: Option<String>,
}

/// A channel seen through the characters of its fields.
#[verifier::ext_equal]
pub struct ChannelModel {
    pub name: Seq<char>,
    pub url: Seq<char>,
    pub group: Option<Seq<char>>,
    pub logo: Option<Seq<char>>,
    pub tvg_id: Option<Seq<char>>,
}

impl View for Channel {
    type V = ChannelModel;

    open spec fn view(&self) -> ChannelModel {
        ChannelModel {
            name: self.name@,
            url: self.url@,
            group: opt_view(self.group),
            logo: opt_view(self.logo),
            tvg_id: opt_view(self.tvg_id),
        }
    }
}

/// A parsed playlist: its channels in order, and the distinct group titles
/// in ascending order.
#[derive(Debug, Clone)]
pub struct Playlist {
    pub channels: Vec<Channel>,
    pub groups: Vec<String>,
}

impl Playlist {
    pub open spec fn channel_models(&self) -> Seq<ChannelModel> {
        self.channels@.map_values(|c: Channel| c@)
    }

    pub open spec fn group_names(&self) -> Seq<Seq<char>> {
        self.groups@.map_values(|g: String| g@)
    }
}

// ---------------------------------------------------------------------------
// Specification of the parser
// ---------------------------------------------------------------------------

/// The directive that introduces a channel's attributes.
pub open spec fn extinf_tag() -> Seq<char> {
    "#EXTINF:"@
}

/// The text that opens the value of attribute `attr`: `attr="`.
pub open spec fn attr_pattern(attr: Seq<char>) -> Seq<char> {
    attr + seq!['=', '"']
}

/// The value after the first occurrence of `pat` in `info`, up to the next
/// double quote.
pub open spec fn value_after(info: Seq<char>, pat: Seq<char>) -> Option<Seq<char>> {
    match find(info, pat) {
        Some(i) => {
            let rest = info.subrange(i + pat.len(), info.len() as int);
            match find(rest, seq!['"']) {
                Some(e) => Some(rest.subrange(0, e)),
                None => None,
            }
        },
        None => None,
    }
}

/// The value of attribute `attr` in an `#EXTINF` line: the text between
/// `attr="` (its first occurrence) and the next `"`.
pub open spec fn attr_value(info: Seq<char>, attr: Seq<char>) -> Option<Seq<char>> {
    value_after(info, attr_pattern(attr))
}

/// What the parser remembers between lines.
#[verifier::ext_equal]
pub struct M3uState {
    /// The channels completed so far.
    pub channels: Seq<ChannelModel>,
    /// Every group title seen in an `#EXTINF` line so far.
    pub groups: Set<Seq<char>>,
    /// The attributes of the last `#EXTINF` line, not yet used.
    pub tvg_id: Option<Seq<char>>,
    pub group: Option<Seq<char>>,
    pub logo: Option<Seq<char>>,
    /// The pending channel name (empty when there is none).
    pub name: Seq<char>,
}

pub open spec fn initial_state() -> M3uState {
    M3uState {
        channels: Seq::empty(),
        groups: Set::empty(),
        tvg_id: None,
        group: None,
        logo: None,
        name: Seq::empty(),
    }
}

/// The effect of one line.
pub open spec fn parse_line(st: M3uState, line: Seq<char>) -> M3uState {
    let t = trim(line);
    if has_prefix(t, extinf_tag()) {
        let info = t.subrange(extinf_tag().len() as int, t.len() as int);
        let group = attr_value(info, "group-title"@);
        M3uState {
            channels: st.channels,
            groups: match group {
                Some(g) => st.groups.insert(g),
                None => st.groups,
            },
            tvg_id: attr_value(info, "tvg-id"@),
            group: group,
            logo: attr_value(info, "tvg-logo"@),
            name: match rfind_char(info, ',') {
                Some(p) => trim(info.subrange(p + 1, info.len() as int)),
                None => st.name,
            },
        }
    } else if has_prefix(t, seq!['#']) || t.len() == 0 {
        st
    } else {
        M3uState {
            channels: st.channels.push(
                ChannelModel {
                    name: if st.name.len() == 0 {
                        t
                    } else {
                        st.name
                    },
                    url: t,
                    group: st.group,
                    logo: st.logo,
                    tvg_id: st.tvg_id,
                },
            ),
            groups: st.groups,
            tvg_id: None,
            group: None,
            logo: None,
            name: Seq::empty(),
        }
    }
}

/// The effect of every line of `s`, in order. Lines end at `'\n'`; a
/// trailing `'\r'` and a final empty line make no difference, as each line
/// is trimmed and blank lines are skipped.
pub open spec fn parse_lines(st: M3uState, s: Seq<char>) -> M3uState
    decreases s.len(),
{
    let k = line_len(s);
    if k < s.len() {
        parse_lines(parse_line(st, s.subrange(0, k as int)), s.subrange((k + 1) as int, s.len() as int))
    } else {
        parse_line(st, s)
    }
}

/// The state after reading the whole playlist `content`.
pub open spec fn m3u_state(content: Seq<char>) -> M3uState {
    parse_lines(initial_state(), content)
}


// ---------------------------------------------------------------------------
// Laws
// ---------------------------------------------------------------------------

/// What holds of every state the parser passes through.
pub open spec fn state_ok(st: M3uState) -> bool {
    &&& forall|i: int|
        0 <= i < st.channels.len() ==> #[trigger] channel_ok(st.channels[i], st.groups)
    &&& st.group matches Some(g) ==> st.groups.contains(g)
}

/// A channel has a name, a URL that is not a directive, and a group that
/// is among `groups` if it has one.
pub open spec fn channel_ok(c: ChannelModel, groups: Set<Seq<char>>) -> bool {
    &&& c.name.len() > 0
    &&& c.url.len() > 0
    &&& c.url[0] != '#'
    &&& c.group matches Some(g) ==> groups.contains(g)
}

proof fn lemma_parse_line_ok(st: M3uState, line: Seq<char>)
    requires
        state_ok(st),
    ensures
        state_ok(parse_line(st, line)),
{
    let t = trim(line);
    let r = parse_line(st, line);
    if has_prefix(t, extinf_tag()) {
        assert forall|i: int| 0 <= i < r.channels.len() implies #[trigger] channel_ok(
            r.channels[i],
            r.groups,
        ) by {
            assert(channel_ok(st.channels[i], st.groups));
        }
    } else if has_prefix(t, seq!['#']) || t.len() == 0 {
    } else {
        if t[0] == '#' {
            assert(t.subrange(0, 1) =~= seq!['#']);
        }
        assert forall|i: int| 0 <= i < r.channels.len() implies #[trigger] channel_ok(
            r.channels[i],
            r.groups,
        ) by {
            if i < st.channels.len() {
                assert(channel_ok(st.channels[i], st.groups));
            }
        }
    }
}

proof fn lemma_parse_lines_ok(st: M3uState, s: Seq<char>)
    requires
        state_ok(st),
    ensures
        state_ok(parse_lines(st, s)),
    decreases s.len(),
{
    let k = line_len(s);
    lemma_parse_line_ok(st, s.subrange(0, k as int));
    lemma_parse_line_ok(st, s);
    if k < s.len() {
        lemma_parse_lines_ok(parse_line(st, s.subrange(0, k as int)), s.subrange((k + 1) as int, s.len() as int));
    }
}

/// Every parsed channel has a non-empty name (its URL when the playlist
/// gives none), a non-empty URL that does not start with `#`, and, when it
/// has a group, that group is listed among the playlist's groups.
pub proof fn law_parsed_channels_well_formed(content: Seq<char>)
    ensures
        forall|i: int|
            0 <= i < m3u_state(content).channels.len() ==> #[trigger] channel_ok(
                m3u_state(content).channels[i],
                m3u_state(content).groups,
            ),
{
    lemma_parse_lines_ok(initial_state(), content);
}


/// Where `a` holds a line break, the first line of `a + b` is the first
/// line of `a`; where it holds none and `b` starts one, it is all of `a`.
proof fn lemma_line_len_concat(a: Seq<char>, b: Seq<char>)
    ensures
        line_len(a) < a.len() ==> line_len(a + b) == line_len(a),
        line_len(a) >= a.len() && b.len() > 0 && b[0] == '\n' ==> line_len(a + b) == a.len(),
    decreases a.len(),
{
    if a.len() > 0 && a[0] != '\n' {
        lemma_line_len_concat(a.drop_first(), b);
        assert((a + b).drop_first() == a.drop_first() + b);
    }
    if a.len() == 0 && b.len() > 0 {
        assert(a + b == b);
    }
}

/// Reading two pieces of a playlist that meet at a line break is reading
/// the first piece and then the second: the parser is a fold over lines.
pub proof fn law_parse_lines_split(st: M3uState, a: Seq<char>, b: Seq<char>)
    ensures
        parse_lines(st, a + seq!['\n'] + b) == parse_lines(parse_lines(st, a), b),
    decreases a.len(),
{
    let nl = seq!['\n'];
    let whole = a + nl + b;
    let k = line_len(a);
    lemma_line_len_concat(a, nl + b);
    assert(whole == a + (nl + b));
    if k < a.len() {
        let rest_a = a.subrange((k + 1) as int, a.len() as int);
        assert(whole.subrange(0, k as int) == a.subrange(0, k as int));
        assert(whole.subrange((k + 1) as int, whole.len() as int) == rest_a + nl + b);
        law_parse_lines_split(parse_line(st, a.subrange(0, k as int)), rest_a, b);
    } else {
        assert(whole.subrange(0, a.len() as int) == a);
        assert(whole.subrange((a.len() + 1) as int, whole.len() as int) == b);
    }
}


/// A URL line completes exactly one channel, which takes the pending name
/// and attributes; afterwards no name or attribute is pending.
pub proof fn law_url_line_completes_one_channel(st: M3uState, line: Seq<char>)
    requires
        trim(line).len() > 0,
        !has_prefix(trim(line), seq!['#']),
    ensures
        parse_line(st, line).channels.len() == st.channels.len() + 1,
        parse_line(st, line).channels.last().url == trim(line),
        parse_line(st, line).channels.last().group == st.group,
        parse_line(st, line).channels.last().logo == st.logo,
        parse_line(st, line).channels.last().tvg_id == st.tvg_id,
        parse_line(st, line).tvg_id is None,
        parse_line(st, line).group is None,
        parse_line(st, line).logo is None,
        parse_line(st, line).name.len() == 0,
        parse_line(st, line).groups == st.groups,
{
    let t = trim(line);
    if has_prefix(t, extinf_tag()) {
        reveal_strlit("#EXTINF:");
        assert(t.subrange(0, 1) == extinf_tag().subrange(0, 1));
        assert(t.subrange(0, 1) =~= seq!['#']);
    }
}

/// A line that is blank or holds a directive other than `#EXTINF:` leaves
/// the parser's state as it was.
pub proof fn law_comment_lines_ignored(st: M3uState, line: Seq<char>)
    requires
        trim(line).len() == 0 || (has_prefix(trim(line), seq!['#']) && !has_prefix(trim(line), extinf_tag())),
    ensures
        parse_line(st, line) == st,
{
    reveal_strlit("#EXTINF:");
}

// ---------------------------------------------------------------------------
// Whole lines
// ---------------------------------------------------------------------------

/// `l` holds no line break: it is one whole line.
pub open spec fn is_line(l: Seq<char>) -> bool {
    forall|i: int| 0 <= i < l.len() ==> l[i] != '\n'
}

/// `p` is empty or ends with a line break, so that what follows it starts
/// a line.
pub open spec fn ends_line(p: Seq<char>) -> bool {
    p.len() == 0 || p.last() == '\n'
}

/// `q` is empty or starts with a line break, so that what precedes it
/// ends a line.
pub open spec fn starts_line(q: Seq<char>) -> bool {
    q.len() == 0 || q[0] == '\n'
}

/// No attribute or name waits for a URL line.
pub open spec fn settled(st: M3uState) -> bool {
    &&& st.tvg_id is None
    &&& st.group is None
    &&& st.logo is None
    &&& st.name.len() == 0
}

/// `st` continued after the channels and groups of `p`.
spec fn after(p: M3uState, st: M3uState) -> M3uState {
    M3uState { channels: p.channels + st.channels, groups: p.groups.union(st.groups), ..st }
}

/// The state in which the line that follows `p` is read.
spec fn state_before(st: M3uState, p: Seq<char>) -> M3uState {
    if p.len() == 0 {
        st
    } else {
        parse_lines(st, p.drop_last())
    }
}

/// The state after the lines that follow a line ended by `q`.
spec fn state_through(st: M3uState, q: Seq<char>) -> M3uState {
    if q.len() == 0 {
        st
    } else {
        parse_lines(st, q.drop_first())
    }
}

proof fn lemma_line_len_whole(l: Seq<char>)
    requires
        is_line(l),
    ensures
        line_len(l) == l.len(),
    decreases l.len(),
{
    if l.len() > 0 {
        assert(l[0] != '\n');
        lemma_line_len_whole(l.drop_first());
    }
}

/// Reading `p + q`, where `p` ends a line, is reading `q` in the state
/// that `p` leaves.
proof fn lemma_after_break(st: M3uState, p: Seq<char>, q: Seq<char>)
    requires
        ends_line(p),
    ensures
        parse_lines(st, p + q) == parse_lines(state_before(st, p), q),
{
    if p.len() > 0 {
        let a = p.drop_last();
        assert(p + q =~= a + seq!['\n'] + q);
        law_parse_lines_split(st, a, q);
    } else {
        assert(p + q =~= q);
    }
}

/// Reading a whole line `l` and then `q`, which starts a new line.
proof fn lemma_line_then(st: M3uState, l: Seq<char>, q: Seq<char>)
    requires
        is_line(l),
        starts_line(q),
    ensures
        parse_lines(st, l + q) == state_through(parse_line(st, l), q),
{
    lemma_line_len_whole(l);
    if q.len() == 0 {
        assert(l + q =~= l);
    } else {
        assert(l + q =~= l + seq!['\n'] + q.drop_first());
        law_parse_lines_split(st, l, q.drop_first());
    }
}

/// Reading `p + l + q`, where `l` is a whole line, reads `l` by itself.
proof fn lemma_whole_line(st: M3uState, p: Seq<char>, l: Seq<char>, q: Seq<char>)
    requires
        ends_line(p),
        is_line(l),
        starts_line(q),
    ensures
        parse_lines(st, p + l + q) == state_through(parse_line(state_before(st, p), l), q),
{
    assert(p + l + q =~= p + (l + q));
    lemma_after_break(st, p, l + q);
    lemma_line_then(state_before(st, p), l, q);
}

/// A whole line can be replaced by another with the same trimmed text
/// without changing what the playlist is read as.
pub proof fn law_line_with_same_trim(p: Seq<char>, l1: Seq<char>, l2: Seq<char>, q: Seq<char>)
    requires
        ends_line(p),
        is_line(l1),
        is_line(l2),
        starts_line(q),
        trim(l1) == trim(l2),
    ensures
        m3u_state(p + l1 + q) == m3u_state(p + l2 + q),
{
    lemma_whole_line(initial_state(), p, l1, q);
    lemma_whole_line(initial_state(), p, l2, q);
    let b = state_before(initial_state(), p);
    assert(parse_line(b, l1) == parse_line(b, l2));
}

/// Whitespace added at either end of a line (spaces, tabs, or a carriage
/// return that turns a `"\n"` line end into `"\r\n"`) changes nothing.
pub proof fn law_line_padding_ignored(p: Seq<char>, l: Seq<char>, q: Seq<char>, c: char)
    requires
        ends_line(p),
        is_line(l),
        starts_line(q),
        is_space(c),
        c != '\n',
    ensures
        m3u_state(p + (seq![c] + l) + q) == m3u_state(p + l + q),
        m3u_state(p + l.push(c) + q) == m3u_state(p + l + q),
{
    lemma_trim_pad_front(l, c);
    lemma_trim_pad_back(l, c);
    assert forall|i: int| 0 <= i < (seq![c] + l).len() implies (seq![c] + l)[i] != '\n' by {
        if i > 0 {
            assert((seq![c] + l)[i] == l[i - 1]);
        }
    }
    assert forall|i: int| 0 <= i < l.push(c).len() implies l.push(c)[i] != '\n' by {
        if i < l.len() {
            assert(l.push(c)[i] == l[i]);
        }
    }
    law_line_with_same_trim(p, seq![c] + l, l, q);
    law_line_with_same_trim(p, l.push(c), l, q);
}

/// Inserting or deleting a whole line that is blank or holds a directive
/// other than `#EXTINF:` changes nothing.
pub proof fn law_comment_line_inserted(p: Seq<char>, l: Seq<char>, q: Seq<char>)
    requires
        ends_line(p),
        is_line(l),
        trim(l).len() == 0 || (has_prefix(trim(l), seq!['#']) && !has_prefix(trim(l), extinf_tag())),
    ensures
        m3u_state(p + l + seq!['\n'] + q) == m3u_state(p + q),
{
    let nq = seq!['\n'] + q;
    assert(p + l + seq!['\n'] + q =~= p + l + nq);
    lemma_whole_line(initial_state(), p, l, nq);
    assert(nq.drop_first() =~= q);
    let b = state_before(initial_state(), p);
    law_comment_lines_ignored(b, l);
    lemma_after_break(initial_state(), p, q);
}

/// Appending a line that is blank or holds a directive other than
/// `#EXTINF:` changes nothing.
pub proof fn law_comment_line_appended(c: Seq<char>, l: Seq<char>)
    requires
        is_line(l),
        trim(l).len() == 0 || (has_prefix(trim(l), seq!['#']) && !has_prefix(trim(l), extinf_tag())),
    ensures
        m3u_state(c + seq!['\n'] + l) == m3u_state(c),
{
    law_parse_lines_split(initial_state(), c, l);
    lemma_line_len_whole(l);
    law_comment_lines_ignored(m3u_state(c), l);
}

proof fn lemma_parse_line_after(p: M3uState, st: M3uState, line: Seq<char>)
    ensures
        parse_line(after(p, st), line) == after(p, parse_line(st, line)),
{
    assert(parse_line(after(p, st), line).channels =~= after(p, parse_line(st, line)).channels);
    assert(parse_line(after(p, st), line).groups =~= after(p, parse_line(st, line)).groups);
}

proof fn lemma_parse_lines_after(p: M3uState, st: M3uState, s: Seq<char>)
    ensures
        parse_lines(after(p, st), s) == after(p, parse_lines(st, s)),
    decreases s.len(),
{
    let k = line_len(s);
    if k < s.len() {
        lemma_parse_line_after(p, st, s.subrange(0, k as int));
        lemma_parse_lines_after(
            p,
            parse_line(st, s.subrange(0, k as int)),
            s.subrange((k + 1) as int, s.len() as int),
        );
    } else {
        lemma_parse_line_after(p, st, s);
    }
}

/// Two playlists joined at a line break read as one: when nothing of the
/// first waits for its URL line, the channels of the second follow those
/// of the first, and the groups are those of both.
pub proof fn law_playlists_concatenate(a: Seq<char>, b: Seq<char>)
    requires
        ends_line(a),
        settled(m3u_state(a)),
    ensures
        m3u_state(a + b).channels == m3u_state(a).channels + m3u_state(b).channels,
        m3u_state(a + b).groups == m3u_state(a).groups.union(m3u_state(b).groups),
{
    reveal_strlit("#EXTINF:");
    let x = m3u_state(a);
    lemma_after_break(initial_state(), a, b);
    if a.len() > 0 {
        let a1 = a.drop_last();
        assert(a =~= a1 + seq!['\n'] + Seq::<char>::empty());
        law_parse_lines_split(initial_state(), a1, Seq::<char>::empty());
    }
    assert(state_before(initial_state(), a) == x);
    assert(x.channels + Seq::<ChannelModel>::empty() =~= x.channels);
    assert(x.groups.union(Set::<Seq<char>>::empty()) =~= x.groups);
    assert(x.name =~= Seq::<char>::empty());
    assert(after(x, initial_state()) == x);
    lemma_parse_lines_after(x, initial_state(), b);
}

// ---------------------------------------------------------------------------
// Lemmas
// ---------------------------------------------------------------------------

/// A position that `find_from` returns is an occurrence, at or after `i`.
pub proof fn lemma_find_from_found(s: Seq<char>, p: Seq<char>, i: int)
    ensures
        find_from(s, p, i) matches Some(k) ==> i <= k && matches_at(s, p, k),
    decreases s.len() + 1 - i,
{
    if !(i < 0 || i + p.len() > s.len()) && !matches_at(s, p, i) {
        lemma_find_from_found(s, p, i + 1);
    }
}

// ---------------------------------------------------------------------------
// Executable parser
// ---------------------------------------------------------------------------

/// `attr_value` on `v[lo..hi]`, given `pat == attr_pattern(attr)`: the
/// bounds of the value within `v`.
fn value_range(v: &Vec<char>, lo: usize, hi: usize, pat: &Vec<char>) -> (r: Option<(usize, usize)>)
    requires
        lo <= hi <= v@.len(),
    ensures
        match r {
            Some((a, b)) => lo <= a <= b <= hi && value_after(
                v@.subrange(lo as int, hi as int),
                pat@,
            ) == Some(v@.subrange(a as int, b as int)),
            None => value_after(v@.subrange(lo as int, hi as int), pat@) is None,
        },
{
    let ghost info = v@.subrange(lo as int, hi as int);
    match find_in(v, lo, hi, pat) {
        None => None,
        Some(i) => {
            proof {
                lemma_find_from_found(info, pat@, 0);
            }
            let start = i + pat.len();
            let ghost rest = info.subrange(start - lo, info.len() as int);
            assert(rest == v@.subrange(start as int, hi as int));
            let mut quote: Vec<char> = Vec::new();
            quote.push('"');
            assert(quote@ == seq!['"']);
            match find_in(v, start, hi, &quote) {
                None => None,
                Some(e) => {
                    proof {
                        lemma_find_from_found(rest, quote@, 0);
                    }
                    assert(rest.subrange(0, e - start) == v@.subrange(start as int, e as int));
                    Some((start, e))
                },
            }
        },
    }
}

/// `extract_attr`: the value of attribute `attr` in the text `info` of an
/// `#EXTINF` line, i.e. the text between the first `attr="` and the next
/// `"`; `None` when either is missing.
pub fn extract_attr(info: &str, attr: &str) -> (r: Option<String>)
    ensures
        opt_view(r) == attr_value(info@, attr@),
{
    let v = chars_of(info);
    let mut pat = chars_of(attr);
    pat.push('=');
    pat.push('"');
    assert(pat@ == attr_pattern(attr@));
    assert(v@.subrange(0, v@.len() as int) == v@);
    match value_range(&v, 0, v.len(), &pat) {
        Some((a, b)) => Some(string_from_range(&v, a, b)),
        None => None,
    }
}

/// The parser's running state.
struct M3uParser {
    channels: Vec<Channel>,
    /// The group titles seen so far, kept in ascending order.
    groups: Vec<Vec<char>>,
    tvg_id: Option<String>,
    group: Option<String>,
    logo: Option<String>,
    name: String,
}

/// The texts that the parser looks for.
struct Patterns {
    tag: Vec<char>,
    tvg_id: Vec<char>,
    group: Vec<char>,
    logo: Vec<char>,
}

impl Patterns {
    spec fn wf(&self) -> bool {
        &&& self.tag@ == extinf_tag()
        &&& self.tvg_id@ == attr_pattern("tvg-id"@)
        &&& self.group@ == attr_pattern("group-title"@)
        &&& self.logo@ == attr_pattern("tvg-logo"@)
    }

    fn new() -> (r: Self)
        ensures
            r.wf(),
    {
        let tag = chars_of("#EXTINF:");
        let mut tvg_id = chars_of("tvg-id");
        tvg_id.push('=');
        tvg_id.push('"');
        let mut group = chars_of("group-title");
        group.push('=');
        group.push('"');
        let mut logo = chars_of("tvg-logo");
        logo.push('=');
        logo.push('"');
        let r = Patterns { tag, tvg_id, group, logo };
        assert(r.tvg_id@ == attr_pattern("tvg-id"@));
        assert(r.group@ == attr_pattern("group-title"@));
        assert(r.logo@ == attr_pattern("tvg-logo"@));
        r
    }
}

spec fn group_views(gs: Seq<Vec<char>>) -> Seq<Seq<char>> {
    gs.map_values(|g: Vec<char>| g@)
}

impl M3uParser {
    spec fn wf(&self) -> bool {
        strictly_sorted(group_views(self.groups@))
    }

    spec fn model(&self) -> M3uState {
        M3uState {
            channels: self.channels@.map_values(|c: Channel| c@),
            groups: group_views(self.groups@).to_set(),
            tvg_id: opt_view(self.tvg_id),
            group: opt_view(self.group),
            logo: opt_view(self.logo),
            name: self.name@,
        }
    }

    fn new() -> (r: Self)
        ensures
            r.wf(),
            r.model() == initial_state(),
    {
        let r = M3uParser {
            channels: Vec::new(),
            groups: Vec::new(),
            tvg_id: None,
            group: None,
            logo: None,
            name: String::new(),
        };
        assert(r.model().channels == initial_state().channels);
        assert(r.model().groups == initial_state().groups);
        r
    }

    /// Records the group title `g` (once, in order).
    fn insert_group(&mut self, g: Vec<char>)
        requires
            old(self).wf(),
        ensures
            final(self).wf(),
            final(self).model() == (M3uState {
                groups: old(self).model().groups.insert(g@),
                ..old(self).model()
            }),
    {
        let ghost old_gs = group_views(self.groups@);
        let mut k: usize = 0;
        while k < self.groups.len() && chars_lt(&self.groups[k], &g)
            invariant
                k <= self.groups@.len(),
                old_gs == group_views(self.groups@),
                forall|i: int| 0 <= i < k ==> str_lt(#[trigger] old_gs[i], g@),
            decreases self.groups.len() - k,
        {
            k = k + 1;
        }
        if k < self.groups.len() && chars_eq(&self.groups[k], &g) {
            assert(old_gs[k as int] == g@);
            assert(old_gs.to_set().insert(g@) =~= old_gs.to_set());
            return ;
        }
        let ghost gv = g@;
        if k < self.groups.len() {
            proof {
                lemma_str_lt_total(old_gs[k as int], gv);
            }
        }
        self.groups.insert(k, g);
        let ghost new_gs = group_views(self.groups@);
        assert(new_gs =~= old_gs.insert(k as int, gv));
        assert forall|i: int, j: int| 0 <= i < j < new_gs.len() implies str_lt(
            #[trigger] new_gs[i],
            #[trigger] new_gs[j],
        ) by {
            if j < k {
            } else if j == k {
            } else if i < k {

            } else if i == k {
                if k < j - 1 {
                    lemma_str_lt_transitive(gv, old_gs[k as int], old_gs[j - 1]);
                }
            } else {
            }
        }
        assert forall|x: Seq<char>| new_gs.contains(x) <==> old_gs.contains(x) || x == gv by {
            if old_gs.contains(x) {
                let i = choose|i: int| 0 <= i < old_gs.len() && old_gs[i] == x;
                if i < k {
                    assert(new_gs[i] == x);
                } else {
                    assert(new_gs[i + 1] == x);
                }
            }
            if x == gv {
                assert(new_gs[k as int] == x);
            }
            if new_gs.contains(x) {
                let i = choose|i: int| 0 <= i < new_gs.len() && new_gs[i] == x;
                if i < k {
                    assert(old_gs[i] == x);
                } else if i > k {
                    assert(old_gs[i - 1] == x);
                }
            }
        }
        assert(new_gs.to_set() =~= old_gs.to_set().insert(gv));
    }

    /// Reads one line, `v[ls..le]`.
    fn process_line(&mut self, v: &Vec<char>, ls: usize, le: usize, pats: &Patterns)
        requires
            old(self).wf(),
            pats.wf(),
            ls <= le <= v@.len(),
        ensures
            final(self).wf(),
            final(self).model() == parse_line(old(self).model(), v@.subrange(ls as int, le as int)),
    {
        let ghost st = self.model();
        let ghost line = v@.subrange(ls as int, le as int);
        let (ta, tb) = trim_range(v, ls, le);
        let ghost t = v@.subrange(ta as int, tb as int);
        assert(t == trim(line));
        if has_prefix_in(v, ta, tb, &pats.tag) {
            let ia = ta + pats.tag.len();
            let ghost info = t.subrange(extinf_tag().len() as int, t.len() as int);
            assert(info == v@.subrange(ia as int, tb as int));
            let tvg = value_range(v, ia, tb, &pats.tvg_id);
            let grp = value_range(v, ia, tb, &pats.group);
            let logo = value_range(v, ia, tb, &pats.logo);
            match grp {
                Some((a, b)) => {
                    let g = vec_from_range(v, a, b);
                    self.insert_group(g);
                    self.group = Some(string_from_range(v, a, b));
                },
                None => {
                    self.group = None;
                },
            }
            self.tvg_id = match tvg {
                Some((a, b)) => Some(string_from_range(v, a, b)),
                None => None,
            };
            self.logo = match logo {
                Some((a, b)) => Some(string_from_range(v, a, b)),
                None => None,
            };
            match rfind_char_in(v, ia, tb, ',') {
                Some(p) => {
                    let (na, nb) = trim_range(v, p + 1, tb);
                    assert(info.subrange(p - ia + 1, info.len() as int) == v@.subrange(
                        p + 1,
                        tb as int,
                    ));
                    self.name = string_from_range(v, na, nb);
                },
                None => {},
            }
            assert(self.model() =~= parse_line(st, line));
        } else {
            let mut hash: Vec<char> = Vec::new();
            hash.push('#');
            assert(hash@ == seq!['#']);
            if has_prefix_in(v, ta, tb, &hash) || ta == tb {
                return ;
            }
            let url = string_from_range(v, ta, tb);
            let name = if self.name.as_str().is_empty() {
                string_from_range(v, ta, tb)
            } else {
                self.name.clone()
            };
            let ch = Channel {
                name,
                url,
                group: clone_opt(&self.group),
                logo: clone_opt(&self.logo),
                tvg_id: clone_opt(&self.tvg_id),
            };
            let ghost chm = ch@;
            let ghost old_channels = self.channels@;
            self.channels.push(ch);
            assert(self.channels@.map_values(|c: Channel| c@) =~= old_channels.map_values(
                |c: Channel| c@,
            ).push(chm));
            self.group = None;
            self.logo = None;
            self.tvg_id = None;
            self.name = String::new();
            assert(self.model() =~= parse_line(st, line));
        }
    }
}

/// `parse_m3u`: parses the text of an M3U playlist.
///
/// The channels are those that `m3u_state` completes, in order; the groups
/// are the distinct group titles of all `#EXTINF` lines, in ascending
/// order (sorted and without duplicates).
pub fn parse_m3u(content: &str) -> (p: Playlist)
    ensures
        p.channel_models() == m3u_state(content@).channels,
        strictly_sorted(p.group_names()),
        p.group_names().to_set() == m3u_state(content@).groups,
{
    let v = chars_of(content);
    let pats = Patterns::new();
    let mut parser = M3uParser::new();
    let n = v.len();
    let mut pos: usize = 0;
    assert(v@.subrange(0, n as int) == v@);
    loop
        invariant_except_break
            pos <= n == v@.len(),
            v@ == content@,
            parser.wf(),
            pats.wf(),
            m3u_state(v@) == parse_lines(parser.model(), v@.subrange(pos as int, n as int)),
        ensures
            v@ == content@,
            parser.wf(),
            m3u_state(v@) == parser.model(),
        decreases n - pos,
    {
        let ghost rest = v@.subrange(pos as int, n as int);
        let mut j = pos;
        while j < n && v[j] != '\n'
            invariant
                pos <= j <= n == v@.len(),
                rest == v@.subrange(pos as int, n as int),
                line_len(rest) == (j - pos) + line_len(v@.subrange(j as int, n as int)),
            decreases n - j,
        {
            assert(v@.subrange(j as int, n as int).drop_first() == v@.subrange(j + 1, n as int));
            j = j + 1;
        }
        let ghost k = line_len(rest);
        assert(k == j - pos);
        let ghost before = parser.model();
        parser.process_line(&v, pos, j, &pats);
        if j == n {
            assert(rest.len() == k);
            proof {
                lemma_last_line(before, rest);
            }
            break ;
        }
        assert(rest.subrange(0, k as int) == v@.subrange(pos as int, j as int));
        assert(rest.subrange((k + 1) as int, rest.len() as int) == v@.subrange(j + 1, n as int));
        pos = j + 1;
    }
    let mut groups: Vec<String> = Vec::new();
    let mut i: usize = 0;
    while i < parser.groups.len()
        invariant
            i <= parser.groups@.len(),
            groups@.len() == i,
            forall|k: int| 0 <= k < i ==> #[trigger] groups@[k]@ == parser.groups@[k]@,
        decreases parser.groups.len() - i,
    {
        groups.push(string_from_chars(&parser.groups[i]));
        i = i + 1;
    }
    let p = Playlist { channels: parser.channels, groups };
    assert(p.group_names() =~= group_views(parser.groups@));
    p
}

/// When the rest of the text holds no line break, reading it is reading
/// one line.
proof fn lemma_last_line(st: M3uState, rest: Seq<char>)
    requires
        line_len(rest) == rest.len(),
    ensures
        parse_lines(st, rest) == parse_line(st, rest),
{
}

} // verus!
