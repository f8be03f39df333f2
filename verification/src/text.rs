//! Character-level text primitives: whitespace trimming, searching,
//! decimal formatting, and building `String`s from character vectors.
//!
//! Strings are handled through their view, a `Seq<char>`; positions are
//! character positions.
use vstd::prelude::*;

verus! {

// ---------------------------------------------------------------------------
// Specifications
// ---------------------------------------------------------------------------

/// `char::is_whitespace`: the Unicode `White_Space` property.
pub open spec fn is_space(c: char) -> bool {
    ||| ('\u{9}' <= c && c <= '\u{d}')
    ||| c == ' '
    ||| c == '\u{85}'
    ||| c == '\u{a0}'
    ||| c == '\u{1680}'
    ||| ('\u{2000}' <= c && c <= '\u{200a}')
    ||| c == '\u{2028}'
    ||| c == '\u{2029}'
    ||| c == '\u{202f}'
    ||| c == '\u{205f}'
    ||| c == '\u{3000}'
}

/// `s` without its leading whitespace.
pub open spec fn trim_start(s: Seq<char>) -> Seq<char>
    decreases s.len(),
{
    if s.len() > 0 && is_space(s[0]) {
        trim_start(s.drop_first())
    } else {
        s
    }
}

/// `s` without its trailing whitespace.
pub open spec fn trim_end(s: Seq<char>) -> Seq<char>
    decreases s.len(),
{
    if s.len() > 0 && is_space(s.last()) {
        trim_end(s.drop_last())
    } else {
        s
    }
}

/// `str::trim`: `s` without leading and trailing whitespace.
pub open spec fn trim(s: Seq<char>) -> Seq<char> {
    trim_end(trim_start(s))
}

/// `p` occurs in `s` at position `i`.
pub open spec fn matches_at(s: Seq<char>, p: Seq<char>, i: int) -> bool {
    0 <= i && i + p.len() <= s.len() && s.subrange(i, i + p.len()) == p
}

/// The first position at or after `i` at which `p` occurs in `s`.
pub open spec fn find_from(s: Seq<char>, p: Seq<char>, i: int) -> Option<int>
    decreases s.len() + 1 - i,
{
    if i < 0 || i + p.len() > s.len() {
        None
    } else if matches_at(s, p, i) {
        Some(i)
    } else {
        find_from(s, p, i + 1)
    }
}

/// `str::find`: the first position at which `p` occurs in `s`.
pub open spec fn find(s: Seq<char>, p: Seq<char>) -> Option<int> {
    find_from(s, p, 0)
}

/// `str::contains`: `p` occurs somewhere in `s`.
pub open spec fn contains(s: Seq<char>, p: Seq<char>) -> bool {
    find(s, p) is Some
}

/// `str::rfind` for one character: the last position of `c` in `s`.
pub open spec fn rfind_char(s: Seq<char>, c: char) -> Option<int>
    decreases s.len(),
{
    if s.len() == 0 {
        None
    } else if s.last() == c {
        Some(s.len() - 1)
    } else {
        rfind_char(s.drop_last(), c)
    }
}

/// `str::trim_end_matches` for one character: `s` without every trailing
/// `c`.
pub open spec fn trim_end_char(s: Seq<char>, c: char) -> Seq<char>
    decreases s.len(),
{
    if s.len() > 0 && s.last() == c {
        trim_end_char(s.drop_last(), c)
    } else {
        s
    }
}

/// The length of the first line of `s` (the characters before the first
/// `'\n'`, or all of `s`).
pub open spec fn line_len(s: Seq<char>) -> nat
    decreases s.len(),
{
    if s.len() == 0 || s[0] == '\n' {
        0
    } else {
        1 + line_len(s.drop_first())
    }
}

/// `str::starts_with`.
pub open spec fn has_prefix(s: Seq<char>, p: Seq<char>) -> bool {
    p.len() <= s.len() && s.subrange(0, p.len() as int) == p
}

/// The decimal digit for `d < 10`.
pub open spec fn digit_char(d: nat) -> char {
    (48 + d) as char
}

/// The decimal representation of `n`, as `u64`'s `Display` writes it.
pub open spec fn decimal(n: nat) -> Seq<char>
    decreases n,
{
    if n < 10 {
        seq![digit_char(n)]
    } else {
        decimal(n / 10).push(digit_char(n % 10))
    }
}

/// The decimal representation of `n`, padded with zeros to at least two
/// digits, as `{:02}` writes it.
pub open spec fn decimal2(n: nat) -> Seq<char> {
    if n < 10 {
        seq!['0', digit_char(n)]
    } else {
        decimal(n)
    }
}

/// The optional string values seen through their views.
pub open spec fn opt_view(o: Option<String>) -> Option<Seq<char>> {
    match o {
        Some(s) => Some(s@),
        None => None,
    }
}

/// What `str::to_lowercase` returns for `s` (Unicode lowercase mapping,
/// including its context-dependent rules).
pub uninterp spec fn lowercase(s: Seq<char>) -> Seq<char>;


/// `String`'s `<`: lexicographic order of the characters (which is the
/// byte order of the UTF-8 encodings).
pub open spec fn str_lt(a: Seq<char>, b: Seq<char>) -> bool
    decreases a.len(),
{
    if a.len() == 0 {
        b.len() > 0
    } else if b.len() == 0 {
        false
    } else if a[0] < b[0] {
        true
    } else if a[0] == b[0] {
        str_lt(a.drop_first(), b.drop_first())
    } else {
        false
    }
}

/// Every element of `gs` is less than every later one.
pub open spec fn strictly_sorted(gs: Seq<Seq<char>>) -> bool {
    forall|i: int, j: int| 0 <= i < j < gs.len() ==> str_lt(#[trigger] gs[i], #[trigger] gs[j])
}

/// The order on strings is transitive.
pub proof fn lemma_str_lt_transitive(a: Seq<char>, b: Seq<char>, c: Seq<char>)
    requires
        str_lt(a, b),
        str_lt(b, c),
    ensures
        str_lt(a, c),
    decreases a.len(),
{
    if a.len() > 0 && b.len() > 0 && c.len() > 0 && a[0] == b[0] && b[0] == c[0] {
        lemma_str_lt_transitive(a.drop_first(), b.drop_first(), c.drop_first());
    }
}

/// Two different strings are ordered one way or the other.
pub proof fn lemma_str_lt_total(a: Seq<char>, b: Seq<char>)
    requires
        a != b,
    ensures
        str_lt(a, b) || str_lt(b, a),
    decreases a.len(),
{
    if a.len() == 0 && b.len() == 0 {
        assert(a =~= b);
    } else if a.len() > 0 && b.len() > 0 && a[0] == b[0] {
        if a.drop_first() == b.drop_first() {
            assert(a =~= seq![a[0]] + a.drop_first());
            assert(b =~= seq![b[0]] + b.drop_first());
        } else {
            lemma_str_lt_total(a.drop_first(), b.drop_first());
        }
    }
}


/// Where `p` occurs at `i`, the search from any `j` up to `i` finds an
/// occurrence.
pub proof fn lemma_find_from_occurrence(s: Seq<char>, p: Seq<char>, i: int, j: int)
    requires
        0 <= j <= i,
        matches_at(s, p, i),
    ensures
        find_from(s, p, j) is Some,
    decreases i - j,
{
    if !matches_at(s, p, j) {
        lemma_find_from_occurrence(s, p, i, j + 1);
    }
}

/// `decimal2` of a number under 100 is its two decimal digits.
pub proof fn lemma_decimal2_digits(n: nat)
    requires
        n < 100,
    ensures
        decimal2(n) == seq![digit_char(n / 10), digit_char(n % 10)],
{
    if n < 10 {
        assert(digit_char(0) == '0');
    } else {
        assert(decimal(n / 10) == seq![digit_char(n / 10)]);
        assert(decimal(n) =~= seq![digit_char(n / 10), digit_char(n % 10)]);
    }
}

/// Whitespace put in front of `s` is trimmed away again.
pub proof fn lemma_trim_pad_front(s: Seq<char>, c: char)
    requires
        is_space(c),
    ensures
        trim(seq![c] + s) == trim(s),
{
    assert((seq![c] + s).drop_first() =~= s);
}

/// Leading whitespace is removed the same way whatever whitespace follows
/// at the end.
proof fn lemma_trim_start_push(s: Seq<char>, c: char)
    requires
        is_space(c),
    ensures
        trim_start(s.push(c)) == (if trim_start(s).len() == 0 {
            Seq::<char>::empty()
        } else {
            trim_start(s).push(c)
        }),
    decreases s.len(),
{
    if s.len() == 0 {
        assert(s.push(c).drop_first() =~= s);
    } else if is_space(s[0]) {
        assert(s.push(c).drop_first() =~= s.drop_first().push(c));
        lemma_trim_start_push(s.drop_first(), c);
    }
}

/// Whitespace put at the end of `s` is trimmed away again.
pub proof fn lemma_trim_pad_back(s: Seq<char>, c: char)
    requires
        is_space(c),
    ensures
        trim(s.push(c)) == trim(s),
{
    lemma_trim_start_push(s, c);
    let t = trim_start(s);
    if t.len() > 0 {
        assert(t.push(c).drop_last() =~= t);
    }
}
// ---------------------------------------------------------------------------
// Trusted std calls
// ---------------------------------------------------------------------------

/// `String::push`: appends the character `c` at the end of `s`.
#[verifier::external_body]
pub(crate) fn push_char(s: &mut String, c: char)
    ensures
        final(s)@ == old(s)@.push(c),
{
    s.push(c);
}

/// `String::pop`: removes and returns the last character, or returns
/// `None` and leaves `s` unchanged when `s` is empty.
#[verifier::external_body]
pub(crate) fn pop_char(s: &mut String) -> (r: Option<char>)
    ensures
        match r {
            Some(c) => old(s)@.len() > 0 && final(s)@ == old(s)@.drop_last() && c == old(s)@.last(),
            None => old(s)@.len() == 0 && final(s)@ == old(s)@,
        },
{
    s.pop()
}

/// `str::to_lowercase`: the result is named by `lowercase`, a function of
/// the characters of `s` alone. What that mapping is (the Unicode tables)
/// is not stated.
#[verifier::external_body]
pub(crate) fn to_lowercase(s: &str) -> (r: String)
    ensures
        r@ == lowercase(s@),
{
    s.to_lowercase()
}

// ---------------------------------------------------------------------------
// Executable functions
// ---------------------------------------------------------------------------

/// `char::is_whitespace`.
pub fn is_space_char(c: char) -> (r: bool)
    ensures
        r == is_space(c),
{
    ('\u{9}' <= c && c <= '\u{d}') || c == ' ' || c == '\u{85}' || c == '\u{a0}' || c
        == '\u{1680}' || ('\u{2000}' <= c && c <= '\u{200a}') || c == '\u{2028}' || c
        == '\u{2029}' || c == '\u{202f}' || c == '\u{205f}' || c == '\u{3000}'
}

/// The characters of `s`, in order.
pub fn chars_of(s: &str) -> (v: Vec<char>)
    ensures
        v@ == s@,
{
    let mut v: Vec<char> = Vec::new();
    for c in it: s.chars()
        invariant
            v@ == it.seq().take(it.index() as int),
            it.seq() == s@,
    {
        v.push(c);
    }
    v
}

/// A `String` holding `v[lo..hi]`.
pub fn string_from_range(v: &Vec<char>, lo: usize, hi: usize) -> (s: String)
    requires
        lo <= hi <= v@.len(),
    ensures
        s@ == v@.subrange(lo as int, hi as int),
{
    let mut s = String::new();
    let mut i = lo;
    while i < hi
        invariant
            lo <= i <= hi <= v@.len(),
            s@ == v@.subrange(lo as int, i as int),
        decreases hi - i,
    {
        push_char(&mut s, v[i]);
        assert(v@.subrange(lo as int, i + 1) == v@.subrange(lo as int, i as int).push(v@[i as int]));
        i = i + 1;
    }
    s
}

/// A `String` holding all of `v`.
pub fn string_from_chars(v: &Vec<char>) -> (s: String)
    ensures
        s@ == v@,
{
    let s = string_from_range(v, 0, v.len());
    assert(v@.subrange(0, v@.len() as int) == v@);
    s
}

/// Appends all characters of `v` to `s`.
pub fn push_all(s: &mut String, v: &Vec<char>)
    ensures
        final(s)@ == old(s)@ + v@,
{
    let mut i: usize = 0;
    while i < v.len()
        invariant
            i <= v@.len(),
            s@ == old(s)@ + v@.subrange(0, i as int),
        decreases v.len() - i,
    {
        push_char(s, v[i]);
        assert(v@.subrange(0, i + 1) == v@.subrange(0, i as int).push(v@[i as int]));
        i = i + 1;
    }
    assert(v@.subrange(0, v@.len() as int) == v@);
}

/// A copy of an optional string.
pub fn clone_opt(o: &Option<String>) -> (r: Option<String>)
    ensures
        opt_view(r) == opt_view(*o),
{
    match o {
        Some(s) => Some(s.clone()),
        None => None,
    }
}

/// `a == b` for string slices.
pub fn str_eq(a: &str, b: &str) -> (r: bool)
    ensures
        r == (a@ == b@),
{
    let av = chars_of(a);
    let bv = chars_of(b);
    chars_eq(&av, &bv)
}

/// `trim_end_char(s, c)`, as an owned string.
pub fn trim_end_matches_char(s: &str, c: char) -> (r: String)
    ensures
        r@ == trim_end_char(s@, c),
{
    let v = chars_of(s);
    let mut b = v.len();
    assert(v@.subrange(0, b as int) == v@);
    while b > 0 && v[b - 1] == c
        invariant
            b <= v@.len(),
            trim_end_char(s@, c) == trim_end_char(v@.subrange(0, b as int), c),
            v@ == s@,
        decreases b,
    {
        assert(v@.subrange(0, b as int).drop_last() == v@.subrange(0, b - 1));
        b = b - 1;
    }
    string_from_range(&v, 0, b)
}

/// An owned copy of `t`.
pub fn owned(t: &str) -> (s: String)
    ensures
        s@ == t@,
{
    let mut s = String::new();
    push_str(&mut s, t);
    s
}

/// Appends the characters of `t` to `s`.
pub fn push_str(s: &mut String, t: &str)
    ensures
        final(s)@ == old(s)@ + t@,
{
    let v = chars_of(t);
    push_all(s, &v);
}

/// The bounds of `trim(v[lo..hi])` within `v`.
pub fn trim_range(v: &Vec<char>, lo: usize, hi: usize) -> (r: (usize, usize))
    requires
        lo <= hi <= v@.len(),
    ensures
        lo <= r.0 <= r.1 <= hi,
        v@.subrange(r.0 as int, r.1 as int) == trim(v@.subrange(lo as int, hi as int)),
{
    let mut a = lo;
    while a < hi && is_space_char(v[a])
        invariant
            lo <= a <= hi <= v@.len(),
            trim_start(v@.subrange(lo as int, hi as int)) == trim_start(
                v@.subrange(a as int, hi as int),
            ),
        decreases hi - a,
    {
        assert(v@.subrange(a as int, hi as int).drop_first() == v@.subrange(a + 1, hi as int));
        a = a + 1;
    }
    assert(trim_start(v@.subrange(a as int, hi as int)) == v@.subrange(a as int, hi as int));
    let mut b = hi;
    while b > a && is_space_char(v[b - 1])
        invariant
            lo <= a <= b <= hi <= v@.len(),
            trim_end(v@.subrange(a as int, hi as int)) == trim_end(v@.subrange(a as int, b as int)),
        decreases b - a,
    {
        assert(v@.subrange(a as int, b as int).drop_last() == v@.subrange(a as int, b - 1));
        b = b - 1;
    }
    (a, b)
}

/// Whether `p` occurs in `v` at position `j` (in absolute terms).
fn matches_at_exec(v: &Vec<char>, j: usize, hi: usize, p: &Vec<char>) -> (r: bool)
    requires
        j <= hi <= v@.len(),
    ensures
        r == (j + p@.len() <= hi && v@.subrange(j as int, j + p@.len()) == p@),
{
    if p.len() > hi - j {
        return false;
    }
    let mut t: usize = 0;
    while t < p.len()
        invariant
            j + p@.len() <= hi <= v@.len(),
            t <= p@.len(),
            forall|u: int| 0 <= u < t ==> v@[j + u] == p@[u],
        decreases p.len() - t,
    {
        if v[j + t] != p[t] {
            assert(v@.subrange(j as int, j + p@.len())[t as int] != p@[t as int]);
            return false;
        }
        t = t + 1;
    }
    assert(v@.subrange(j as int, j + p@.len()) == p@);
    true
}

/// `find(v[lo..hi], p)`, as a position in `v`.
pub fn find_in(v: &Vec<char>, lo: usize, hi: usize, p: &Vec<char>) -> (r: Option<usize>)
    requires
        lo <= hi <= v@.len(),
    ensures
        match r {
            Some(k) => lo <= k && find(v@.subrange(lo as int, hi as int), p@) == Some(k - lo),
            None => find(v@.subrange(lo as int, hi as int), p@) is None,
        },
{
    let ghost s = v@.subrange(lo as int, hi as int);
    let mut j = lo;
    while j <= hi
        invariant
            lo <= j,
            hi <= v@.len(),
            s == v@.subrange(lo as int, hi as int),
            j <= hi + 1,
            find(s, p@) == find_from(s, p@, j - lo),
        decreases hi + 1 - j,
    {
        if p.len() > hi - j {
            return None;
        }
        let m = matches_at_exec(v, j, hi, p);
        assert(s.subrange(j - lo, j - lo + p@.len()) == v@.subrange(j as int, j + p@.len()));
        if m {
            return Some(j);
        }
        if j == hi {
            assert(p@.len() == 0);
            assert(s.subrange(j - lo, j - lo + p@.len()) == p@);
            return None;
        }
        j = j + 1;
    }
    None
}

/// `rfind_char(v[lo..hi], c)`, as a position in `v`.
pub fn rfind_char_in(v: &Vec<char>, lo: usize, hi: usize, c: char) -> (r: Option<usize>)
    requires
        lo <= hi <= v@.len(),
    ensures
        match r {
            Some(k) => lo <= k < hi && rfind_char(v@.subrange(lo as int, hi as int), c) == Some(k - lo),
            None => rfind_char(v@.subrange(lo as int, hi as int), c) is None,
        },
{
    let mut b = hi;
    while b > lo
        invariant
            lo <= b <= hi <= v@.len(),
            rfind_char(v@.subrange(lo as int, hi as int), c) == rfind_char(
                v@.subrange(lo as int, b as int),
                c,
            ),
        decreases b - lo,
    {
        assert(v@.subrange(lo as int, b as int).last() == v@[b - 1]);
        if v[b - 1] == c {
            return Some(b - 1);
        }
        assert(v@.subrange(lo as int, b as int).drop_last() == v@.subrange(lo as int, b - 1));
        b = b - 1;
    }
    None
}

/// `has_prefix(v[lo..hi], p)`.
pub fn has_prefix_in(v: &Vec<char>, lo: usize, hi: usize, p: &Vec<char>) -> (r: bool)
    requires
        lo <= hi <= v@.len(),
    ensures
        r == has_prefix(v@.subrange(lo as int, hi as int), p@),
{
    let r = matches_at_exec(v, lo, hi, p);
    assert(p@.len() <= hi - lo ==> v@.subrange(lo as int, hi as int).subrange(0, p@.len() as int)
        == v@.subrange(lo as int, lo + p@.len()));
    r
}


/// `a < b` for `String`s held as characters.
pub fn chars_lt(a: &Vec<char>, b: &Vec<char>) -> (r: bool)
    ensures
        r == str_lt(a@, b@),
{
    let mut i: usize = 0;
    assert(a@.skip(0) == a@ && b@.skip(0) == b@);
    while i < a.len() && i < b.len() && a[i] == b[i]
        invariant
            i <= a@.len(),
            i <= b@.len(),
            str_lt(a@, b@) == str_lt(a@.skip(i as int), b@.skip(i as int)),
        decreases a.len() - i,
    {
        assert(a@.skip(i as int).drop_first() == a@.skip(i + 1));
        assert(b@.skip(i as int).drop_first() == b@.skip(i + 1));
        i = i + 1;
    }
    if i == a.len() {
        i < b.len()
    } else if i == b.len() {
        false
    } else {
        a[i] < b[i]
    }
}

/// `a == b` for strings held as characters.
pub fn chars_eq(a: &Vec<char>, b: &Vec<char>) -> (r: bool)
    ensures
        r == (a@ == b@),
{
    if a.len() != b.len() {
        return false;
    }
    let mut i: usize = 0;
    while i < a.len()
        invariant
            a@.len() == b@.len(),
            i <= a@.len(),
            forall|k: int| 0 <= k < i ==> a@[k] == b@[k],
        decreases a.len() - i,
    {
        if a[i] != b[i] {
            return false;
        }
        i = i + 1;
    }
    assert(a@ =~= b@);
    true
}

/// A vector holding `v[lo..hi]`.
pub fn vec_from_range(v: &Vec<char>, lo: usize, hi: usize) -> (r: Vec<char>)
    requires
        lo <= hi <= v@.len(),
    ensures
        r@ == v@.subrange(lo as int, hi as int),
{
    let mut r: Vec<char> = Vec::new();
    let mut i = lo;
    while i < hi
        invariant
            lo <= i <= hi <= v@.len(),
            r@ == v@.subrange(lo as int, i as int),
        decreases hi - i,
    {
        r.push(v[i]);
        assert(v@.subrange(lo as int, i + 1) == v@.subrange(lo as int, i as int).push(v@[i as int]));
        i = i + 1;
    }
    r
}

/// `contains(s, p)` for strings held as characters.
pub fn chars_contain(s: &Vec<char>, p: &Vec<char>) -> (r: bool)
    ensures
        r == contains(s@, p@),
{
    assert(s@.subrange(0, s@.len() as int) == s@);
    find_in(s, 0, s.len(), p).is_some()
}

/// Appends the decimal representation of `n` to `s`.
pub fn push_decimal(s: &mut String, n: u64)
    ensures
        final(s)@ == old(s)@ + decimal(n as nat),
    decreases n,
{
    if n >= 10 {
        push_decimal(s, n / 10);
    }
    let d = (n % 10) as u8;
    let c = (48u8 + d) as char;
    push_char(s, c);
}

} // verus!
