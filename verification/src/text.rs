//! Character-level text utilities shared by the parsers of this crate.
//!
//! Text is handled as sequences of `char`; ranges are half-open windows
//! `[lo, hi)` of character positions.
use vstd::prelude::*;

verus! {

/// Whether `c` has the Unicode `White_Space` property, the property that
/// `char::is_whitespace` tests: tab, line feed, vertical tab, form feed and
/// carriage return (U+0009..U+000D), space, U+0085, no-break space U+00A0,
/// U+1680, U+2000..U+200A, the line and paragraph separators U+2028 and
/// U+2029, U+202F, U+205F and the ideographic space U+3000.
pub open spec fn white_space(c: char) -> bool {
    ||| ('\u{9}' <= c && c <= '\u{D}')
    ||| c == ' '
    ||| c == '\u{85}'
    ||| c == '\u{A0}'
    ||| c == '\u{1680}'
    ||| ('\u{2000}' <= c && c <= '\u{200A}')
    ||| c == '\u{2028}'
    ||| c == '\u{2029}'
    ||| c == '\u{202F}'
    ||| c == '\u{205F}'
    ||| c == '\u{3000}'
}

/// Whether `c` is white space, as `char::is_whitespace` answers.
pub fn is_whitespace(c: char) -> (r: bool)
    ensures
        r == white_space(c),
{
    ('\u{9}' <= c && c <= '\u{D}') || c == ' ' || c == '\u{85}' || c == '\u{A0}' || c
        == '\u{1680}' || ('\u{2000}' <= c && c <= '\u{200A}') || c == '\u{2028}' || c
        == '\u{2029}' || c == '\u{202F}' || c == '\u{205F}' || c == '\u{3000}'
}

/// The lowercase mapping of a string, as `str::to_lowercase` computes it.
pub uninterp spec fn lowercase_of(s: Seq<char>) -> Seq<char>;

/// Calls `str::to_lowercase`.  The contract claims that the result is a
/// function of the characters of `s` alone, named `lowercase_of`.
#[verifier::external_body]
pub(crate) fn to_lowercase(s: &str) -> (r: String)
    ensures
        r@ == lowercase_of(s@),
{
    s.to_lowercase()
}

/// Calls `String::push`: the character is appended at the end.
#[verifier::external_body]
pub(crate) fn push_char(s: &mut String, c: char)
    ensures
        final(s)@ == old(s)@.push(c),
{
    s.push(c)
}

/// `c` is one of the ASCII digits `0`..`9` (`char::is_ascii_digit`).
pub open spec fn is_ascii_digit(c: char) -> bool {
    '0' <= c && c <= '9'
}

/// `c` is an ASCII letter or digit (`char::is_ascii_alphanumeric`).
pub open spec fn is_ascii_alphanumeric(c: char) -> bool {
    is_ascii_digit(c) || ('a' <= c && c <= 'z') || ('A' <= c && c <= 'Z')
}

/// Characters that may stand in a version token: ASCII letters and digits, `.`, `-`, `_`.
pub open spec fn is_version_char(c: char) -> bool {
    is_ascii_alphanumeric(c) || c == '.' || c == '-' || c == '_'
}

/// The classes of characters that the scanners of this crate skip over.
#[derive(Clone, Copy, Debug, PartialEq, Eq, Structural)]
pub enum CharClass {
    /// White space.
    Space,
    /// Anything but white space.
    NonSpace,
    /// Anything that cannot stand in a version token.
    NotVersionChar,
    /// `:` and `=`, which may follow a "version" label.
    LabelSeparator,
    /// The letter `v`, which may precede a version number.
    LetterV,
    /// Anything but a line feed.
    NotLineFeed,
    /// Anything but a comma.
    NotComma,
}

/// Whether `c` belongs to class `k`.
pub open spec fn in_class(c: char, k: CharClass) -> bool {
    match k {
        CharClass::Space => white_space(c),
        CharClass::NonSpace => !white_space(c),
        CharClass::NotVersionChar => !is_version_char(c),
        CharClass::LabelSeparator => c == ':' || c == '=',
        CharClass::LetterV => c == 'v',
        CharClass::NotLineFeed => c != '\n',
        CharClass::NotComma => c != ',',
    }
}

/// Whether `c` belongs to class `k`.
pub fn char_in_class(c: char, k: CharClass) -> (r: bool)
    ensures
        r == in_class(c, k),
{
    match k {
        CharClass::Space => is_whitespace(c),
        CharClass::NonSpace => !is_whitespace(c),
        CharClass::NotVersionChar => !(('0' <= c && c <= '9') || ('a' <= c && c <= 'z') || (
        'A' <= c && c <= 'Z') || c == '.' || c == '-' || c == '_'),
        CharClass::LabelSeparator => c == ':' || c == '=',
        CharClass::LetterV => c == 'v',
        CharClass::NotLineFeed => c != '\n',
        CharClass::NotComma => c != ',',
    }
}

/// The first position at or after `i` and before `hi` whose character is not
/// in class `k`, or `hi` when there is none.
pub open spec fn skip_class(s: Seq<char>, i: int, hi: int, k: CharClass) -> int
    decreases hi - i,
{
    if i < hi && in_class(s[i], k) {
        skip_class(s, i + 1, hi, k)
    } else {
        i
    }
}

/// The position just past the last character in `[lo, j)` that is not in
/// class `k`, or `lo` when there is none.
pub open spec fn back_class(s: Seq<char>, lo: int, j: int, k: CharClass) -> int
    decreases j - lo,
{
    if lo < j && in_class(s[j - 1], k) {
        back_class(s, lo, j - 1, k)
    } else {
        j
    }
}

/// The window `[lo, hi)` with leading and trailing white space removed (`str::trim`).
pub open spec fn trim_range(s: Seq<char>, lo: int, hi: int) -> (int, int) {
    let a = skip_class(s, lo, hi, CharClass::Space);
    (a, back_class(s, a, hi, CharClass::Space))
}

/// `s` with leading and trailing white space removed (`str::trim`).
pub open spec fn trim(s: Seq<char>) -> Seq<char> {
    let r = trim_range(s, 0, s.len() as int);
    s.subrange(r.0, r.1)
}

pub proof fn lemma_skip_class(s: Seq<char>, i: int, hi: int, k: CharClass)
    requires
        i <= hi,
    ensures
        i <= skip_class(s, i, hi, k) <= hi,
        forall|j: int| i <= j < skip_class(s, i, hi, k) ==> in_class(#[trigger] s[j], k),
        skip_class(s, i, hi, k) < hi ==> !in_class(s[skip_class(s, i, hi, k)], k),
    decreases hi - i,
{
    if i < hi && in_class(s[i], k) {
        lemma_skip_class(s, i + 1, hi, k);
    }
}

pub proof fn lemma_back_class(s: Seq<char>, lo: int, j: int, k: CharClass)
    requires
        lo <= j,
    ensures
        lo <= back_class(s, lo, j, k) <= j,
        forall|m: int| back_class(s, lo, j, k) <= m < j ==> in_class(#[trigger] s[m], k),
        lo < back_class(s, lo, j, k) ==> !in_class(s[back_class(s, lo, j, k) - 1], k),
    decreases j - lo,
{
    if lo < j && in_class(s[j - 1], k) {
        lemma_back_class(s, lo, j - 1, k);
    }
}

/// Executable `skip_class` over the characters `s`.
pub fn skip_class_exec(s: &Vec<char>, i: usize, hi: usize, k: CharClass) -> (r: usize)
    requires
        i <= hi <= s.len(),
    ensures
        r == skip_class(s@, i as int, hi as int, k),
        i <= r <= hi,
{
    proof {
        lemma_skip_class(s@, i as int, hi as int, k);
    }
    let mut j = i;
    while j < hi && char_in_class(s[j], k)
        invariant
            i <= j <= hi,
            hi <= s.len(),
            skip_class(s@, j as int, hi as int, k) == skip_class(s@, i as int, hi as int, k),
        decreases hi - j,
    {
        j = j + 1;
    }
    j
}

/// Executable `back_class` over the characters `s`.
pub fn back_class_exec(s: &Vec<char>, lo: usize, j: usize, k: CharClass) -> (r: usize)
    requires
        lo <= j <= s.len(),
    ensures
        r == back_class(s@, lo as int, j as int, k),
        lo <= r <= j,
{
    proof {
        lemma_back_class(s@, lo as int, j as int, k);
    }
    let mut m = j;
    while lo < m && char_in_class(s[m - 1], k)
        invariant
            lo <= m <= j,
            j <= s.len(),
            back_class(s@, lo as int, m as int, k) == back_class(s@, lo as int, j as int, k),
        decreases m - lo,
    {
        m = m - 1;
    }
    m
}

/// Executable `trim_range`.
pub fn trim_range_exec(s: &Vec<char>, lo: usize, hi: usize) -> (r: (usize, usize))
    requires
        lo <= hi <= s.len(),
    ensures
        r.0 == trim_range(s@, lo as int, hi as int).0,
        r.1 == trim_range(s@, lo as int, hi as int).1,
        lo <= r.0 <= r.1 <= hi,
{
    let a = skip_class_exec(s, lo, hi, CharClass::Space);
    let b = back_class_exec(s, a, hi, CharClass::Space);
    (a, b)
}


/// The first position at or after `i` where `pat` occurs in `s`.
pub open spec fn find_from(s: Seq<char>, pat: Seq<char>, i: int) -> Option<int>
    decreases s.len() + 1 - i,
{
    if i < 0 || i + pat.len() > s.len() {
        None
    } else if s.subrange(i, i + pat.len()) == pat {
        Some(i)
    } else {
        find_from(s, pat, i + 1)
    }
}

pub proof fn lemma_find_from(s: Seq<char>, pat: Seq<char>, i: int)
    requires
        0 <= i,
    ensures
        find_from(s, pat, i) matches Some(k) ==> i <= k && k + pat.len() <= s.len() && s.subrange(
            k,
            k + pat.len(),
        ) == pat,
        find_from(s, pat, i) matches Some(k) ==> forall|j: int|
            i <= j < k ==> #[trigger] s.subrange(j, j + pat.len()) != pat,
        find_from(s, pat, i) is None ==> forall|j: int|
            i <= j && j + pat.len() <= s.len() ==> #[trigger] s.subrange(j, j + pat.len()) != pat,
    decreases s.len() + 1 - i,
{
    if i + pat.len() <= s.len() && s.subrange(i, i + pat.len()) != pat {
        lemma_find_from(s, pat, i + 1);
    }
}

/// Whether `pat` occurs in `s` at position `i`.
pub fn occurs_at(s: &Vec<char>, pat: &Vec<char>, i: usize) -> (r: bool)
    requires
        i + pat.len() <= s.len(),
    ensures
        r == (s@.subrange(i as int, i + pat.len()) == pat@),
{
    let mut j: usize = 0;
    while j < pat.len()
        invariant
            i + pat.len() <= s.len(),
            j <= pat.len(),
            forall|m: int| 0 <= m < j ==> s@[i + m] == pat@[m],
        decreases pat.len() - j,
    {
        if s[i + j] != pat[j] {
            assert(s@.subrange(i as int, i + pat.len())[j as int] != pat@[j as int]);
            return false;
        }
        j = j + 1;
    }
    assert(s@.subrange(i as int, i + pat.len()) =~= pat@);
    true
}

/// Executable `find_from`.
pub fn find_exec(s: &Vec<char>, pat: &Vec<char>, from: usize) -> (r: Option<usize>)
    ensures
        r matches Some(k) ==> find_from(s@, pat@, from as int) == Some(k as int),
        r is None ==> find_from(s@, pat@, from as int) is None,
{
    if pat.len() > s.len() || from > s.len() - pat.len() {
        return None;
    }
    let last = s.len() - pat.len();
    let mut i = from;
    loop
        invariant
            from <= i <= last,
            last + pat.len() == s.len(),
            find_from(s@, pat@, i as int) == find_from(s@, pat@, from as int),
        decreases last - i,
    {
        if occurs_at(s, pat, i) {
            return Some(i);
        }
        if i == last {
            assert(find_from(s@, pat@, i + 1) is None);
            return None;
        }
        i = i + 1;
    }
}

/// The owned string made of the characters of `s` in `[lo, hi)`.
pub fn substring(s: &str, lo: usize, hi: usize) -> (r: String)
    requires
        lo <= hi <= s@.len(),
    ensures
        r@ == s@.subrange(lo as int, hi as int),
{
    s.substring_char(lo, hi).to_owned()
}


/// The number of bytes in the UTF-8 encoding of the first `p` characters of `s`.
pub open spec fn prefix_bytes(s: Seq<char>, p: int) -> int {
    vstd::utf8::encode_utf8(s.take(p)).len() as int
}

/// The number of bytes in the UTF-8 encoding of `c`.
pub open spec fn char_width(c: char) -> int {
    vstd::utf8::encode_scalar(c as u32).len() as int
}

proof fn lemma_encode_utf8_push(s: Seq<char>, c: char)
    ensures
        vstd::utf8::encode_utf8(s.push(c)) == vstd::utf8::encode_utf8(s) + vstd::utf8::encode_scalar(
            c as u32,
        ),
    decreases s.len(),
{
    if s.len() == 0 {
        assert(s.push(c).drop_first() =~= Seq::<char>::empty());
        assert(vstd::utf8::encode_utf8(Seq::<char>::empty()) =~= Seq::<u8>::empty());
        assert(vstd::utf8::encode_scalar(c as u32) + Seq::<u8>::empty() =~= vstd::utf8::encode_scalar(
            c as u32,
        ));
    } else {
        assert(s.push(c).drop_first() =~= s.drop_first().push(c));
        lemma_encode_utf8_push(s.drop_first(), c);
        assert(vstd::utf8::encode_utf8(s.push(c)) =~= vstd::utf8::encode_scalar(s[0] as u32) + (
        vstd::utf8::encode_utf8(s.drop_first()) + vstd::utf8::encode_scalar(c as u32)));
    }
}

/// Each further character adds its width to the byte offset.
pub proof fn lemma_prefix_bytes_step(s: Seq<char>, p: int)
    requires
        0 <= p < s.len(),
    ensures
        prefix_bytes(s, p + 1) == prefix_bytes(s, p) + char_width(s[p]),
        1 <= char_width(s[p]) <= 4,
{
    assert(s.take(p + 1) =~= s.take(p).push(s[p]));
    lemma_encode_utf8_push(s.take(p), s[p]);
}

/// Byte offsets of character positions are strictly increasing.
pub proof fn lemma_prefix_bytes_increase(s: Seq<char>, p: int, q: int)
    requires
        0 <= p < q <= s.len(),
    ensures
        prefix_bytes(s, p) < prefix_bytes(s, q),
        prefix_bytes(s, q) <= prefix_bytes(s, p) + 4 * (q - p),
    decreases q - p,
{
    lemma_prefix_bytes_step(s, p);
    if p + 1 < q {
        lemma_prefix_bytes_increase(s, p + 1, q);
    }
}

pub proof fn lemma_prefix_bytes_zero(s: Seq<char>)
    ensures
        prefix_bytes(s, 0) == 0,
{
    assert(s.take(0) =~= Seq::<char>::empty());
}

/// Executable `char_width`.
pub fn utf8_width(c: char) -> (r: u8)
    ensures
        r == char_width(c),
        1 <= r <= 4,
{
    proof {
        vstd::utf8::char_is_scalar(c);
    }
    let v = c as u32;
    if v <= 0x7F {
        1
    } else if v <= 0x7FF {
        2
    } else if v <= 0xFFFF {
        3
    } else {
        4
    }
}

/// The character position of `s` at which its UTF-8 encoding has exactly `b`
/// bytes before it, if there is one.
pub open spec fn char_at_byte(s: Seq<char>, b: int) -> Option<int> {
    if exists|p: int| 0 <= p <= s.len() && prefix_bytes(s, p) == b {
        Some(choose|p: int| 0 <= p <= s.len() && prefix_bytes(s, p) == b)
    } else {
        None
    }
}

/// Executable `char_at_byte`.
pub fn char_at_byte_exec(s: &Vec<char>, b: u128) -> (r: Option<usize>)
    ensures
        r matches Some(p) ==> char_at_byte(s@, b as int) == Some(p as int) && p <= s.len(),
        r is None ==> char_at_byte(s@, b as int) is None,
{
    let mut acc: u128 = 0;
    let mut p: usize = 0;
    proof {
        lemma_prefix_bytes_zero(s@);
    }
    while p < s.len() && acc < b
        invariant
            p <= s.len(),
            acc == prefix_bytes(s@, p as int),
            acc <= 4 * p,
            forall|q: int| 0 <= q < p ==> #[trigger] prefix_bytes(s@, q) < b,
        decreases s.len() - p,
    {
        proof {
            lemma_prefix_bytes_step(s@, p as int);
        }
        let w = utf8_width(s[p]);
        acc = acc + w as u128;
        p = p + 1;
    }
    if acc == b {
        proof {
            assert forall|q: int| 0 <= q <= s.len() && prefix_bytes(s@, q) == b implies q == p by {
                if q < p {
                } else if q > p {
                    lemma_prefix_bytes_increase(s@, p as int, q);
                }
            }
        }
        Some(p)
    } else {
        proof {
            assert forall|q: int| 0 <= q <= s.len() implies prefix_bytes(s@, q) != b by {
                if q > p {
                    lemma_prefix_bytes_increase(s@, p as int, q);
                }
            }
        }
        None
    }
}


/// Scanning only looks at the characters of the window.
pub proof fn lemma_scan_same_window(s1: Seq<char>, s2: Seq<char>, lo: int, hi: int, k: CharClass)
    requires
        0 <= lo <= hi <= s1.len(),
        hi <= s2.len(),
        forall|m: int| lo <= m < hi ==> s1[m] == s2[m],
    ensures
        skip_class(s1, lo, hi, k) == skip_class(s2, lo, hi, k),
        back_class(s1, lo, hi, k) == back_class(s2, lo, hi, k),
    decreases hi - lo,
{
    if lo < hi {
        lemma_scan_same_window(s1, s2, lo + 1, hi, k);
        lemma_scan_same_window(s1, s2, lo, hi - 1, k);
    }
}

/// The characters of `s`, one element each.
pub fn chars_of(s: &str) -> (v: Vec<char>)
    ensures
        v@ == s@,
{
    broadcast use vstd::string::group_string_axioms;
    let mut v: Vec<char> = Vec::new();
    for c in it: s.chars()
        invariant
            it.seq() == s@,
            v@ == it.seq().take(it.index() as int),
    {
        v.push(c);
    }
    assert(v@ =~= s@);
    v
}

} // verus!
