//! Reading a version number out of the text that a program prints for
//! `--version`.
//!
//! A line that mentions "version" (in any letter case) is read after that
//! word: a token right behind an optional `:` or `=` counts when it holds a
//! digit; otherwise the first token there that looks like a version (a digit
//! and a `.`) counts.  A line without the word is searched for a token that
//! looks like a version.  Tokens are cut at white space, stripped of
//! characters other than ASCII letters, digits, `.`, `-` and `_` at both ends,
//! and reported without a leading `v`.
use vstd::prelude::*;
use crate::text::{
    back_class, back_class_exec, char_at_byte, chars_of, find_from, in_class, is_ascii_digit,
    char_at_byte_exec, find_exec, lemma_find_from, lemma_prefix_bytes_step,
    lemma_back_class, lemma_prefix_bytes_zero, lemma_scan_same_window, lemma_skip_class, white_space, is_version_char, lowercase_of, prefix_bytes, skip_class,
    skip_class_exec, substring, to_lowercase, trim_range, trim_range_exec, utf8_width, CharClass,
};

verus! {

/// Some ASCII digit stands in `t`.
pub open spec fn has_ascii_digit(t: Seq<char>) -> bool {
    exists|i: int| 0 <= i < t.len() && is_ascii_digit(#[trigger] t[i])
}

/// A token looks like a version when it holds an ASCII digit and a `.`.
pub open spec fn looks_like_version_spec(t: Seq<char>) -> bool {
    has_ascii_digit(t) && t.contains('.')
}

/// The token `[a, e)` of `s` without the characters at either end that cannot
/// stand in a version.
pub open spec fn cleaned_range(s: Seq<char>, a: int, e: int) -> (int, int) {
    let ca = skip_class(s, a, e, CharClass::NotVersionChar);
    (ca, back_class(s, ca, e, CharClass::NotVersionChar))
}

/// The cleaned token `[a, b)` without its leading `v`s.
pub open spec fn without_leading_v(s: Seq<char>, a: int, b: int) -> (int, int) {
    (skip_class(s, a, b, CharClass::LetterV), b)
}

/// The first white-space separated token of `s` in `[i, hi)` whose cleaned form
/// looks like a version, as the range of that cleaned form without leading `v`s.
pub open spec fn version_token_in(s: Seq<char>, i: int, hi: int) -> Option<(int, int)>
    decreases hi - i,
{
    if i < 0 || hi < i {
        None
    } else {
        let a = skip_class(s, i, hi, CharClass::Space);
        if a >= hi {
            None
        } else {
            let e = skip_class(s, a, hi, CharClass::NonSpace);
            let c = cleaned_range(s, a, e);
            if looks_like_version_spec(s.subrange(c.0, c.1)) {
                Some(without_leading_v(s, c.0, c.1))
            } else {
                proof {
                    lemma_skip_class(s, i, hi, CharClass::Space);
                    lemma_skip_class(s, a + 1, hi, CharClass::NonSpace);
                }
                version_token_in(s, e, hi)
            }
        }
    }
}

/// The version right behind a label, read from the window `[lo, hi)` of `s`:
/// leading `:` and `=` are dropped, then white space at both ends; the first
/// token, cleaned, counts when it holds a digit.
pub open spec fn version_after_label_in(s: Seq<char>, lo: int, hi: int) -> Option<(int, int)> {
    let t0 = skip_class(s, lo, hi, CharClass::LabelSeparator);
    let t = trim_range(s, t0, hi);
    if t.0 >= t.1 {
        None
    } else {
        let e = skip_class(s, t.0, t.1, CharClass::NonSpace);
        let c = cleaned_range(s, t.0, e);
        if c.0 < c.1 && has_ascii_digit(s.subrange(c.0, c.1)) {
            Some(without_leading_v(s, c.0, c.1))
        } else {
            None
        }
    }
}

pub open spec fn range_text(s: Seq<char>, r: Option<(int, int)>) -> Option<Seq<char>> {
    match r {
        Some(w) => Some(s.subrange(w.0, w.1)),
        None => None,
    }
}

/// What the first version-like token of `text` gives.
pub open spec fn first_version_token_spec(text: Seq<char>) -> Option<Seq<char>> {
    range_text(text, version_token_in(text, 0, text.len() as int))
}

/// What the version behind a label gives for `text`.
pub open spec fn version_after_label_spec(text: Seq<char>) -> Option<Seq<char>> {
    range_text(text, version_after_label_in(text, 0, text.len() as int))
}

/// The byte offset, in the UTF-8 encoding of `lower`, just past the first
/// occurrence of "version".
pub open spec fn label_end(lower: Seq<char>) -> Option<int> {
    match find_from(lower, "version"@, 0) {
        Some(k) => Some(prefix_bytes(lower, k) + 7),
        None => None,
    }
}

/// The version of one trimmed line `line`, given its lowercase form `lower`.
/// The outer `None` stands for the case where the byte offset found in
/// `lower` is not a character boundary of `line` (the position where slicing
/// `line` fails); the inner option is the version found, if any.
pub open spec fn line_version(line: Seq<char>, lower: Seq<char>) -> Option<Option<Seq<char>>> {
    match label_end(lower) {
        None => Some(range_text(line, version_token_in(line, 0, line.len() as int))),
        Some(b) => match char_at_byte(line, b) {
            None => None,
            Some(p) => {
                let t = trim_range(line, p, line.len() as int);
                match version_after_label_in(line, t.0, t.1) {
                    Some(w) => Some(Some(line.subrange(w.0, w.1))),
                    None => Some(range_text(line, version_token_in(line, t.0, t.1))),
                }
            },
        },
    }
}

/// The characters of the line that starts at `i` end here: at the next line
/// feed, or one earlier when a carriage return stands before that line feed.
pub open spec fn line_content_end(s: Seq<char>, i: int) -> int {
    let nl = skip_class(s, i, s.len() as int, CharClass::NotLineFeed);
    if nl < s.len() && i < nl && s[nl - 1] == '\r' {
        nl - 1
    } else {
        nl
    }
}

/// Scans the lines of `s` from position `i` on (as `str::lines` cuts them),
/// trims each, skips empty ones and returns what the first line that yields a
/// version gives; `None` where a line's byte offset falls inside a character.
pub open spec fn versions_from(s: Seq<char>, i: int) -> Option<Option<Seq<char>>>
    decreases s.len() - i,
{
    if i < 0 || i > s.len() {
        Some(None)
    } else {
        let nl = skip_class(s, i, s.len() as int, CharClass::NotLineFeed);
        let t = trim_range(s, i, line_content_end(s, i));
        let here = if t.0 < t.1 {
            let line = s.subrange(t.0, t.1);
            line_version(line, lowercase_of(line))
        } else {
            Some(None)
        };
        match here {
            None => None,
            Some(Some(v)) => Some(Some(v)),
            Some(None) => if nl >= s.len() {
                Some(None)
            } else {
                proof {
                    lemma_skip_class(s, i, s.len() as int, CharClass::NotLineFeed);
                }
                versions_from(s, nl + 1)
            },
        }
    }
}

/// The version found in the whole output `output`; the outer `None` where
/// reading it fails inside a character.
pub open spec fn extract_version_spec(output: Seq<char>) -> Option<Option<Seq<char>>> {
    versions_from(output, 0)
}

pub open spec fn string_opt(o: Option<String>) -> Option<Seq<char>> {
    match o {
        Some(s) => Some(s@),
        None => None,
    }
}

pub open spec fn string_opt2(o: Option<Option<String>>) -> Option<Option<Seq<char>>> {
    match o {
        Some(x) => Some(string_opt(x)),
        None => None,
    }
}

pub open spec fn range_opt(r: Option<(usize, usize)>) -> Option<(int, int)> {
    match r {
        Some(w) => Some((w.0 as int, w.1 as int)),
        None => None,
    }
}

/// Whether an ASCII digit stands in `[a, b)` of `s`.
fn has_digit_in(s: &Vec<char>, a: usize, b: usize) -> (r: bool)
    requires
        a <= b <= s.len(),
    ensures
        r == has_ascii_digit(s@.subrange(a as int, b as int)),
{
    let mut i = a;
    while i < b
        invariant
            a <= i <= b <= s.len(),
            forall|j: int| a <= j < i ==> !is_ascii_digit(#[trigger] s@[j]),
        decreases b - i,
    {
        if '0' <= s[i] && s[i] <= '9' {
            assert(is_ascii_digit(s@.subrange(a as int, b as int)[i - a]));
            return true;
        }
        i = i + 1;
    }
    assert forall|j: int| 0 <= j < b - a implies !is_ascii_digit(
        #[trigger] s@.subrange(a as int, b as int)[j],
    ) by {
        assert(s@.subrange(a as int, b as int)[j] == s@[a + j]);
    }
    false
}

/// Whether a `.` stands in `[a, b)` of `s`.
fn has_dot_in(s: &Vec<char>, a: usize, b: usize) -> (r: bool)
    requires
        a <= b <= s.len(),
    ensures
        r == s@.subrange(a as int, b as int).contains('.'),
{
    let mut i = a;
    while i < b
        invariant
            a <= i <= b <= s.len(),
            forall|j: int| a <= j < i ==> #[trigger] s@[j] != '.',
        decreases b - i,
    {
        if s[i] == '.' {
            assert(s@.subrange(a as int, b as int)[i - a] == '.');
            return true;
        }
        i = i + 1;
    }
    assert forall|j: int| 0 <= j < b - a implies #[trigger] s@.subrange(a as int, b as int)[j]
        != '.' by {
        assert(s@.subrange(a as int, b as int)[j] == s@[a + j]);
    }
    false
}

/// Whether `token` holds an ASCII digit and a `.`.
pub fn looks_like_version(token: &str) -> (r: bool)
    ensures
        r == looks_like_version_spec(token@),
{
    let s = chars_of(token);
    assert(s@.subrange(0, s@.len() as int) =~= s@);
    has_digit_in(&s, 0, s.len()) && has_dot_in(&s, 0, s.len())
}

/// Executable `version_token_in`.
fn version_token_range(s: &Vec<char>, lo: usize, hi: usize) -> (r: Option<(usize, usize)>)
    requires
        lo <= hi <= s.len(),
    ensures
        range_opt(r) == version_token_in(s@, lo as int, hi as int),
        r matches Some(w) ==> lo <= w.0 <= w.1 <= hi,
{
    let mut i = lo;
    loop
        invariant
            lo <= i <= hi <= s.len(),
            version_token_in(s@, i as int, hi as int) == version_token_in(
                s@,
                lo as int,
                hi as int,
            ),
        decreases hi - i,
    {
        let a = skip_class_exec(s, i, hi, CharClass::Space);
        if a >= hi {
            return None;
        }
        let e = skip_class_exec(s, a, hi, CharClass::NonSpace);
        proof {
            lemma_skip_class(s@, i as int, hi as int, CharClass::Space);
            lemma_skip_class(s@, a + 1, hi as int, CharClass::NonSpace);
        }
        let ca = skip_class_exec(s, a, e, CharClass::NotVersionChar);
        let cb = back_class_exec(s, ca, e, CharClass::NotVersionChar);
        if has_digit_in(s, ca, cb) && has_dot_in(s, ca, cb) {
            let va = skip_class_exec(s, ca, cb, CharClass::LetterV);
            return Some((va, cb));
        }
        i = e;
    }
}

/// Executable `version_after_label_in`.
fn version_after_label_range(s: &Vec<char>, lo: usize, hi: usize) -> (r: Option<(usize, usize)>)
    requires
        lo <= hi <= s.len(),
    ensures
        range_opt(r) == version_after_label_in(s@, lo as int, hi as int),
        r matches Some(w) ==> lo <= w.0 <= w.1 <= hi,
{
    let t0 = skip_class_exec(s, lo, hi, CharClass::LabelSeparator);
    let (a, b) = trim_range_exec(s, t0, hi);
    if a >= b {
        return None;
    }
    let e = skip_class_exec(s, a, b, CharClass::NonSpace);
    let ca = skip_class_exec(s, a, e, CharClass::NotVersionChar);
    let cb = back_class_exec(s, ca, e, CharClass::NotVersionChar);
    if ca < cb && has_digit_in(s, ca, cb) {
        let va = skip_class_exec(s, ca, cb, CharClass::LetterV);
        Some((va, cb))
    } else {
        None
    }
}

/// The text of `s` in the range `r`, when there is one.
fn range_string(text: &str, s: &Vec<char>, r: Option<(usize, usize)>) -> (o: Option<String>)
    requires
        s@ == text@,
        r matches Some(w) ==> w.0 <= w.1 <= s.len(),
    ensures
        string_opt(o) == range_text(s@, range_opt(r)),
{
    match r {
        Some((a, b)) => Some(substring(text, a, b)),
        None => None,
    }
}

/// The version right behind a label at the start of `text` (leading `:` and
/// `=` and white space dropped): its first token, cleaned and without leading
/// `v`s, when that token holds a digit.
pub fn extract_version_after_label(text: &str) -> (r: Option<String>)
    ensures
        string_opt(r) == version_after_label_spec(text@),
{
    let s = chars_of(text);
    let w = version_after_label_range(&s, 0, s.len());
    range_string(text, &s, w)
}

/// The first white-space separated token of `text` that, cleaned, holds a
/// digit and a `.`, without leading `v`s.
pub fn first_version_token(text: &str) -> (r: Option<String>)
    ensures
        string_opt(r) == first_version_token_spec(text@),
{
    let s = chars_of(text);
    let w = version_token_range(&s, 0, s.len());
    range_string(text, &s, w)
}


/// Executable `label_end`.
fn label_end_exec(lower: &Vec<char>) -> (r: Option<u128>)
    ensures
        r matches Some(b) ==> label_end(lower@) == Some(b as int),
        r is None ==> label_end(lower@) is None,
{
    let pat = chars_of("version");
    match find_exec(lower, &pat, 0) {
        None => None,
        Some(k) => {
            proof {
                lemma_find_from(lower@, pat@, 0);
                lemma_prefix_bytes_zero(lower@);
            }
            let mut acc: u128 = 0;
            let mut i: usize = 0;
            while i < k
                invariant
                    i <= k <= lower.len(),
                    acc == prefix_bytes(lower@, i as int),
                    acc <= 4 * i,
                decreases k - i,
            {
                proof {
                    lemma_prefix_bytes_step(lower@, i as int);
                }
                let w = utf8_width(lower[i]);
                acc = acc + w as u128;
                i = i + 1;
            }
            Some(acc + 7)
        },
    }
}

/// Whether reading a version from the trimmed line `line`, whose lowercase
/// form is `lower`, stays on character boundaries.
fn line_reads_cleanly(line: &str, lower: &str) -> (r: bool)
    ensures
        r == line_version(line@, lower@) is Some,
{
    let s = chars_of(line);
    let lw = chars_of(lower);
    match label_end_exec(&lw) {
        None => true,
        Some(b) => char_at_byte_exec(&s, b).is_some(),
    }
}

/// The version of the trimmed line `line`, given its lowercase form `lower`:
/// read behind the first "version" of `lower` (at the same byte offset in
/// `line`) when there is one, else from the first version-like token.
pub fn extract_version_from_lowered_line(line: &str, lower: &str) -> (r: Option<String>)
    requires
        line_version(line@, lower@) is Some,
    ensures
        Some(string_opt(r)) == line_version(line@, lower@),
{
    let s = chars_of(line);
    let lw = chars_of(lower);
    match label_end_exec(&lw) {
        None => range_string(line, &s, version_token_range(&s, 0, s.len())),
        Some(b) => match char_at_byte_exec(&s, b) {
            None => None,
            Some(p) => {
                let (a, z) = trim_range_exec(&s, p, s.len());
                match version_after_label_range(&s, a, z) {
                    Some(w) => range_string(line, &s, Some(w)),
                    None => range_string(line, &s, version_token_range(&s, a, z)),
                }
            },
        },
    }
}

/// The version of the trimmed line `line`.
pub fn extract_version_from_line(line: &str) -> (r: Option<String>)
    requires
        line_version(line@, lowercase_of(line@)) is Some,
    ensures
        Some(string_opt(r)) == line_version(line@, lowercase_of(line@)),
{
    let lower = to_lowercase(line);
    extract_version_from_lowered_line(line, lower.as_str())
}

/// The version of the trimmed line `line`, or `None` where reading it would
/// cut `line` inside a character.
pub fn try_extract_version_from_line(line: &str) -> (r: Option<Option<String>>)
    ensures
        string_opt2(r) == line_version(line@, lowercase_of(line@)),
{
    let lower = to_lowercase(line);
    if line_reads_cleanly(line, lower.as_str()) {
        Some(extract_version_from_line(line))
    } else {
        None
    }
}

/// Executable `extract_version_spec`.
fn scan_versions(output: &str) -> (r: Option<Option<String>>)
    ensures
        string_opt2(r) == extract_version_spec(output@),
{
    let s = chars_of(output);
    let n = s.len();
    let mut i: usize = 0;
    loop
        invariant
            i <= n,
            n == s@.len(),
            s@ == output@,
            versions_from(s@, i as int) == versions_from(s@, 0),
        decreases n - i,
    {
        let nl = skip_class_exec(&s, i, n, CharClass::NotLineFeed);
        let en = if nl < n && i < nl && s[nl - 1] == '\r' {
            nl - 1
        } else {
            nl
        };
        assert(en == line_content_end(s@, i as int));
        let (a, b) = trim_range_exec(&s, i, en);
        if a < b {
            let line = output.substring_char(a, b);
            match try_extract_version_from_line(line) {
                None => {
                    return None;
                },
                Some(Some(v)) => {
                    return Some(Some(v));
                },
                Some(None) => {},
            }
        }
        if nl >= n {
            return Some(None);
        }
        i = nl + 1;
    }
}

/// The version in the output of a `--version` call: the first non-empty
/// trimmed line that yields one decides.
pub fn extract_version(output: &str) -> (r: Option<String>)
    requires
        extract_version_spec(output@) is Some,
    ensures
        Some(string_opt(r)) == extract_version_spec(output@),
{
    scan_versions(output).unwrap()
}

/// The version in the output of a `--version` call, or `None` where reading
/// it would cut a line inside a character.
pub fn try_extract_version(output: &str) -> (r: Option<Option<String>>)
    ensures
        string_opt2(r) == extract_version_spec(output@),
{
    if scan_versions(output).is_some() {
        Some(extract_version(output))
    } else {
        None
    }
}


/// A reported version: a non-empty token without white space that holds an
/// ASCII digit, does not start with `v`, and ends in an ASCII letter or
/// digit, `.`, `-` or `_`.
pub open spec fn is_clean_version(v: Seq<char>) -> bool {
    &&& v.len() > 0
    &&& has_ascii_digit(v)
    &&& v[0] != 'v'
    &&& is_version_char(v.last())
    &&& forall|i: int| 0 <= i < v.len() ==> !white_space(#[trigger] v[i])
}

proof fn lemma_strip_v_clean(s: Seq<char>, a: int, e: int, ca: int, cb: int)
    requires
        0 <= a <= ca <= cb <= e <= s.len(),
        forall|j: int| a <= j < e ==> !white_space(#[trigger] s[j]),
        has_ascii_digit(s.subrange(ca, cb)),
        ca < cb ==> is_version_char(s[cb - 1]),
    ensures
        ca <= without_leading_v(s, ca, cb).0 < without_leading_v(s, ca, cb).1 == cb,
        is_clean_version(s.subrange(without_leading_v(s, ca, cb).0, cb)),
{
    let t = s.subrange(ca, cb);
    let k = choose|k: int| 0 <= k < t.len() && is_ascii_digit(#[trigger] t[k]);
    assert(t[k] == s[ca + k]);
    lemma_skip_class(s, ca, cb, CharClass::LetterV);
    let va = without_leading_v(s, ca, cb).0;
    if ca + k < va {
        assert(in_class(s[ca + k], CharClass::LetterV));
    }
    let v = s.subrange(va, cb);
    assert(v[ca + k - va] == s[ca + k]);
    assert(v.last() == s[cb - 1]);
    assert forall|i: int| 0 <= i < v.len() implies !white_space(#[trigger] v[i]) by {
        assert(v[i] == s[va + i]);
    }
}

proof fn lemma_strip_v_keeps_dot(s: Seq<char>, ca: int, cb: int)
    requires
        0 <= ca <= cb <= s.len(),
        s.subrange(ca, cb).contains('.'),
    ensures
        s.subrange(without_leading_v(s, ca, cb).0, cb).contains('.'),
{
    let t = s.subrange(ca, cb);
    let k = choose|k: int| 0 <= k < t.len() && t[k] == '.';
    assert(t[k] == s[ca + k]);
    lemma_skip_class(s, ca, cb, CharClass::LetterV);
    let va = without_leading_v(s, ca, cb).0;
    if ca + k < va {
        assert(in_class(s[ca + k], CharClass::LetterV));
    }
    assert(s.subrange(va, cb)[ca + k - va] == '.');
}

proof fn lemma_token_clean(s: Seq<char>, a: int, e: int)
    requires
        0 <= a <= e <= s.len(),
        forall|j: int| a <= j < e ==> !white_space(#[trigger] s[j]),
        has_ascii_digit(s.subrange(cleaned_range(s, a, e).0, cleaned_range(s, a, e).1)),
    ensures
        ({
            let c = cleaned_range(s, a, e);
            let w = without_leading_v(s, c.0, c.1);
            a <= w.0 < w.1 <= e && is_clean_version(s.subrange(w.0, w.1))
        }),
{
    let c = cleaned_range(s, a, e);
    lemma_skip_class(s, a, e, CharClass::NotVersionChar);
    lemma_back_class(s, c.0, e, CharClass::NotVersionChar);
    lemma_strip_v_clean(s, a, e, c.0, c.1);
}

proof fn lemma_version_token_clean(s: Seq<char>, i: int, hi: int)
    requires
        0 <= i <= hi <= s.len(),
    ensures
        version_token_in(s, i, hi) matches Some(w) ==> i <= w.0 < w.1 <= hi && is_clean_version(
            s.subrange(w.0, w.1),
        ) && s.subrange(w.0, w.1).contains('.'),
    decreases hi - i,
{
    let a = skip_class(s, i, hi, CharClass::Space);
    lemma_skip_class(s, i, hi, CharClass::Space);
    if a < hi {
        let e = skip_class(s, a, hi, CharClass::NonSpace);
        lemma_skip_class(s, a, hi, CharClass::NonSpace);
        lemma_skip_class(s, a + 1, hi, CharClass::NonSpace);
        let c = cleaned_range(s, a, e);
        if looks_like_version_spec(s.subrange(c.0, c.1)) {
            lemma_token_clean(s, a, e);
            lemma_skip_class(s, a, e, CharClass::NotVersionChar);
            lemma_back_class(s, c.0, e, CharClass::NotVersionChar);
            lemma_strip_v_keeps_dot(s, c.0, c.1);
        } else {
            lemma_version_token_clean(s, e, hi);
        }
    }
}

proof fn lemma_after_label_clean(s: Seq<char>, lo: int, hi: int)
    requires
        0 <= lo <= hi <= s.len(),
    ensures
        version_after_label_in(s, lo, hi) matches Some(w) ==> lo <= w.0 < w.1 <= hi
            && is_clean_version(s.subrange(w.0, w.1)),
{
    let t0 = skip_class(s, lo, hi, CharClass::LabelSeparator);
    lemma_skip_class(s, lo, hi, CharClass::LabelSeparator);
    let t = trim_range(s, t0, hi);
    lemma_skip_class(s, t0, hi, CharClass::Space);
    lemma_back_class(s, t.0, hi, CharClass::Space);
    if t.0 < t.1 {
        let e = skip_class(s, t.0, t.1, CharClass::NonSpace);
        lemma_skip_class(s, t.0, t.1, CharClass::NonSpace);
        let c = cleaned_range(s, t.0, e);
        if c.0 < c.1 && has_ascii_digit(s.subrange(c.0, c.1)) {
            lemma_token_clean(s, t.0, e);
        }
    }
}

/// Every version read from a single line is a clean token.
pub proof fn lemma_line_version_clean(line: Seq<char>, lower: Seq<char>)
    ensures
        line_version(line, lower) matches Some(Some(v)) ==> is_clean_version(v),
{
    lemma_version_token_clean(line, 0, line.len() as int);
    if let Some(b) = label_end(lower) {
        if let Some(p) = char_at_byte(line, b) {
            let t = trim_range(line, p, line.len() as int);
            lemma_skip_class(line, p, line.len() as int, CharClass::Space);
            lemma_back_class(line, t.0, line.len() as int, CharClass::Space);
            lemma_after_label_clean(line, t.0, t.1);
            lemma_version_token_clean(line, t.0, t.1);
        }
    }
}

proof fn lemma_versions_from_clean(s: Seq<char>, i: int)
    ensures
        versions_from(s, i) matches Some(Some(v)) ==> is_clean_version(v),
    decreases s.len() - i,
{
    if 0 <= i <= s.len() {
        let nl = skip_class(s, i, s.len() as int, CharClass::NotLineFeed);
        lemma_skip_class(s, i, s.len() as int, CharClass::NotLineFeed);
        let t = trim_range(s, i, line_content_end(s, i));
        if t.0 < t.1 {
            let line = s.subrange(t.0, t.1);
            lemma_line_version_clean(line, lowercase_of(line));
        }
        if nl < s.len() {
            lemma_versions_from_clean(s, nl + 1);
        }
    }
}

/// Law: whatever version is read from a program's output is a single clean
/// token: non-empty, free of white space, holding an ASCII digit, not starting
/// with `v`, and ending in an ASCII letter or digit, `.`, `-` or `_`.
pub proof fn lemma_extracted_version_is_clean(output: Seq<char>)
    ensures
        extract_version_spec(output) matches Some(Some(v)) ==> is_clean_version(v),
{
    lemma_versions_from_clean(output, 0);
}

/// A white-space separated token of the window `[lo, hi)` of `s` starts at `p`.
pub open spec fn token_starts_at(s: Seq<char>, lo: int, hi: int, p: int) -> bool {
    lo <= p < hi && !white_space(s[p]) && (p == lo || white_space(s[p - 1]))
}

/// The token that starts at `p` (and ends before `hi`), stripped of the
/// characters at either end that cannot stand in a version, holds an ASCII
/// digit and a `.`.
pub open spec fn token_looks_like_version(s: Seq<char>, p: int, hi: int) -> bool {
    let e = skip_class(s, p, hi, CharClass::NonSpace);
    let c = cleaned_range(s, p, e);
    looks_like_version_spec(s.subrange(c.0, c.1))
}

/// The token that starts at `p`, cleaned and without leading `v`s.
pub open spec fn token_version_range(s: Seq<char>, p: int, hi: int) -> (int, int) {
    let e = skip_class(s, p, hi, CharClass::NonSpace);
    let c = cleaned_range(s, p, e);
    without_leading_v(s, c.0, c.1)
}

/// Law: the version token found in a window is the first token of the
/// window that looks like a version: no token before it does; and when none
/// is found, no token of the window looks like a version.
pub proof fn lemma_version_token_is_first(s: Seq<char>, i: int, hi: int)
    requires
        0 <= i <= hi <= s.len(),
    ensures
        version_token_in(s, i, hi) matches Some(w) ==> exists|p: int|
            #![trigger token_starts_at(s, i, hi, p)]
            {
                &&& token_starts_at(s, i, hi, p)
                &&& token_looks_like_version(s, p, hi)
                &&& w == token_version_range(s, p, hi)
                &&& forall|q: int|
                    #![trigger token_starts_at(s, i, hi, q)]
                    token_starts_at(s, i, hi, q) && q < p ==> !token_looks_like_version(s, q, hi)
            },
        version_token_in(s, i, hi) is None ==> forall|q: int|
            #![trigger token_starts_at(s, i, hi, q)]
            token_starts_at(s, i, hi, q) ==> !token_looks_like_version(s, q, hi),
    decreases hi - i,
{
    let a = skip_class(s, i, hi, CharClass::Space);
    lemma_skip_class(s, i, hi, CharClass::Space);
    if a >= hi {
        assert forall|q: int| token_starts_at(s, i, hi, q) implies !token_looks_like_version(
            s,
            q,
            hi,
        ) by {
            assert(in_class(s[q], CharClass::Space));
        }
    } else {
        let e = skip_class(s, a, hi, CharClass::NonSpace);
        lemma_skip_class(s, a, hi, CharClass::NonSpace);
        lemma_skip_class(s, a + 1, hi, CharClass::NonSpace);
        assert(e > a);
        if a > i {
            assert(in_class(s[a - 1], CharClass::Space));
        }
        assert(token_starts_at(s, i, hi, a));
        // No token starts before `a`, nor inside the token `[a, e)`.
        assert forall|q: int| token_starts_at(s, i, hi, q) && q < e implies q == a by {
            if q < a {
                assert(in_class(s[q], CharClass::Space));
            } else if q > a {
                assert(in_class(s[q - 1], CharClass::NonSpace));
            }
        }
        // From `e` on, the token starts are those of the window `[e, hi)`.
        assert forall|q: int| e <= q implies token_starts_at(s, i, hi, q) == token_starts_at(
            s,
            e,
            hi,
            q,
        ) by {
            if q == e && e < hi {
                assert(!in_class(s[e], CharClass::NonSpace));
            }
        }
        let c = cleaned_range(s, a, e);
        if looks_like_version_spec(s.subrange(c.0, c.1)) {
            assert(token_looks_like_version(s, a, hi));
        } else {
            assert(!token_looks_like_version(s, a, hi));
            lemma_version_token_is_first(s, e, hi);
            if let Some(w) = version_token_in(s, e, hi) {
                let p = choose|p: int|
                    #![trigger token_starts_at(s, e, hi, p)]
                    {
                        &&& token_starts_at(s, e, hi, p)
                        &&& token_looks_like_version(s, p, hi)
                        &&& w == token_version_range(s, p, hi)
                        &&& forall|q: int|
                            #![trigger token_starts_at(s, e, hi, q)]
                            token_starts_at(s, e, hi, q) && q < p ==> !token_looks_like_version(
                                s,
                                q,
                                hi,
                            )
                    };
                assert(token_starts_at(s, i, hi, p));
                assert forall|q: int|
                    token_starts_at(s, i, hi, q) && q < p implies !token_looks_like_version(
                    s,
                    q,
                    hi,
                ) by {
                    if q < e {
                        assert(q == a);
                    } else {
                        assert(token_starts_at(s, e, hi, q));
                    }
                }
            } else {
                assert forall|q: int| token_starts_at(s, i, hi, q) implies !token_looks_like_version(
                    s,
                    q,
                    hi,
                ) by {
                    if q < e {
                        assert(q == a);
                    } else {
                        assert(token_starts_at(s, e, hi, q));
                    }
                }
            }
        }
    }
}

/// Law: `first_version_token` reports the first token of the text that looks
/// like a version (cleaned, without leading `v`s), and reports nothing
/// exactly when no token looks like a version.
pub proof fn lemma_first_version_token_is_first(text: Seq<char>)
    ensures
        first_version_token_spec(text) matches Some(v) ==> exists|p: int|
            #![trigger token_starts_at(text, 0, text.len() as int, p)]
            {
                &&& token_starts_at(text, 0, text.len() as int, p)
                &&& token_looks_like_version(text, p, text.len() as int)
                &&& v == text.subrange(
                    token_version_range(text, p, text.len() as int).0,
                    token_version_range(text, p, text.len() as int).1,
                )
                &&& forall|q: int|
                    #![trigger token_starts_at(text, 0, text.len() as int, q)]
                    token_starts_at(text, 0, text.len() as int, q) && q < p
                        ==> !token_looks_like_version(text, q, text.len() as int)
            },
        first_version_token_spec(text) is None <==> forall|q: int|
            #![trigger token_starts_at(text, 0, text.len() as int, q)]
            token_starts_at(text, 0, text.len() as int, q) ==> !token_looks_like_version(
                text,
                q,
                text.len() as int,
            ),
{
    lemma_version_token_is_first(text, 0, text.len() as int);
}

/// Law: the first version-like token, when there is one, is a clean token
/// that also holds a `.`.
pub proof fn lemma_first_version_token_clean(text: Seq<char>)
    ensures
        first_version_token_spec(text) matches Some(v) ==> is_clean_version(v) && v.contains('.'),
{
    lemma_version_token_clean(text, 0, text.len() as int);
}


proof fn lemma_line_end_in_prefix(s1: Seq<char>, b: Seq<char>, i: int)
    requires
        0 <= i < s1.len(),
        s1.last() == '\n',
    ensures
        skip_class(s1 + b, i, (s1 + b).len() as int, CharClass::NotLineFeed) == skip_class(
            s1,
            i,
            s1.len() as int,
            CharClass::NotLineFeed,
        ),
        skip_class(s1, i, s1.len() as int, CharClass::NotLineFeed) < s1.len(),
    decreases s1.len() - i,
{
    assert((s1 + b)[i] == s1[i]);
    if s1[i] != '\n' {
        lemma_line_end_in_prefix(s1, b, i + 1);
    }
}

proof fn lemma_versions_from_prefix(s1: Seq<char>, b: Seq<char>, i: int)
    requires
        0 <= i <= s1.len(),
        s1.len() > 0,
        s1.last() == '\n',
    ensures
        versions_from(s1, i) != Some(None::<Seq<char>>) ==> versions_from(s1 + b, i)
            == versions_from(s1, i),
    decreases s1.len() - i,
{
    let s2 = s1 + b;
    if i < s1.len() {
        lemma_line_end_in_prefix(s1, b, i);
        let nl = skip_class(s1, i, s1.len() as int, CharClass::NotLineFeed);
        lemma_skip_class(s1, i, s1.len() as int, CharClass::NotLineFeed);
        let en = line_content_end(s1, i);
        if i < nl {
            assert(s2[nl - 1] == s1[nl - 1]);
        }
        assert(line_content_end(s2, i) == en);
        assert forall|m: int| i <= m < en implies s1[m] == s2[m] by {}
        lemma_scan_same_window(s1, s2, i, en, CharClass::Space);
        let t = trim_range(s1, i, en);
        lemma_skip_class(s1, i, en, CharClass::Space);
        lemma_scan_same_window(s1, s2, t.0, en, CharClass::Space);
        assert(trim_range(s2, i, en) == t);
        lemma_back_class(s1, t.0, en, CharClass::Space);
        assert(s2.subrange(t.0, t.1) =~= s1.subrange(t.0, t.1));
        lemma_versions_from_prefix(s1, b, nl + 1);
    }
}

/// Law: the first line that yields a version decides: once the lines of an
/// output (each ended by a line feed) yield a version, or fail to read,
/// whatever text follows leaves the result unchanged.
pub proof fn lemma_later_lines_do_not_matter(output: Seq<char>, rest: Seq<char>)
    requires
        output.len() > 0,
        output.last() == '\n',
        extract_version_spec(output) != Some(None::<Seq<char>>),
    ensures
        extract_version_spec(output + rest) == extract_version_spec(output),
{
    lemma_versions_from_prefix(output, rest, 0);
}

} // verus!
