//! Verified text scanners for the fixed patterns the rules look for:
//! ISO dates, tag slugs in URLs, the zoom-disabling viewport directive,
//! and numeric tab indices.
//!
//! Every scanner takes the first match, as the rules require; the absence of
//! a match is reported as `None` or `false`.

use vstd::prelude::*;

verus! {

pub open spec fn is_digit(c: char) -> bool {
    '0' <= c && c <= '9'
}

/// Characters allowed in a tag slug.
pub open spec fn is_slug_char(c: char) -> bool {
    c == '-' || ('a' <= c && c <= 'z') || ('A' <= c && c <= 'Z') || is_digit(c)
}

pub open spec fn is_space(c: char) -> bool {
    c == ' ' || c == '\t' || c == '\n' || c == '\r' || c == '\u{b}' || c == '\u{c}'
}

/// A date of the shape `dddd-dd-dd` starts at position `i` of `s`.
pub open spec fn date_at(s: Seq<char>, i: int) -> bool {
    &&& 0 <= i
    &&& i + 10 <= s.len()
    &&& is_digit(s[i]) && is_digit(s[i + 1]) && is_digit(s[i + 2]) && is_digit(s[i + 3])
    &&& s[i + 4] == '-'
    &&& is_digit(s[i + 5]) && is_digit(s[i + 6])
    &&& s[i + 7] == '-'
    &&& is_digit(s[i + 8]) && is_digit(s[i + 9])
}

/// The first position at or after `i` where a date starts, if any.
pub open spec fn first_date_from(s: Seq<char>, i: int) -> Option<int>
    decreases s.len() - i,
{
    if i < 0 || i + 10 > s.len() {
        None
    } else if date_at(s, i) {
        Some(i)
    } else {
        first_date_from(s, i + 1)
    }
}

/// The first `dddd-dd-dd` substring of `s`, if any.
pub open spec fn extract_iso_date_spec(s: Seq<char>) -> Option<Seq<char>> {
    match first_date_from(s, 0) {
        Some(i) => Some(s.subrange(i, i + 10)),
        None => None,
    }
}

/// The view of an optional owned string.
pub open spec fn opt_view(r: Option<String>) -> Option<Seq<char>> {
    match r {
        Some(s) => Some(s@),
        None => None,
    }
}

fn digit(c: char) -> (b: bool)
    ensures
        b == is_digit(c),
{
    '0' <= c && c <= '9'
}

/// Whether a date starts at position `i`.
fn date_starts_at(s: &str, i: usize) -> (b: bool)
    requires
        i + 10 <= s@.len(),
        s@.len() <= usize::MAX,
    ensures
        b == date_at(s@, i as int),
{
    digit(s.get_char(i)) && digit(s.get_char(i + 1)) && digit(s.get_char(i + 2)) && digit(
        s.get_char(i + 3),
    ) && s.get_char(i + 4) == '-' && digit(s.get_char(i + 5)) && digit(s.get_char(i + 6))
        && s.get_char(i + 7) == '-' && digit(s.get_char(i + 8)) && digit(s.get_char(i + 9))
}

/// Extracts the first ISO-date-shaped substring of `s`, scanning left to
/// right.
pub fn extract_iso_date(s: &str) -> (r: Option<String>)
    ensures
        opt_view(r) == extract_iso_date_spec(s@),
{
    let n = s.unicode_len();
    if n < 10 {
        return None;
    }
    let mut i: usize = 0;
    while i <= n - 10
        invariant
            n == s@.len(),
            10 <= n,
            i <= n,
            first_date_from(s@, 0) == first_date_from(s@, i as int),
        decreases n - i,
    {
        if date_starts_at(s, i) {
            let d = s.substring_char(i, i + 10);
            return Some(d.to_owned());
        }
        assert(first_date_from(s@, i as int) == first_date_from(s@, i + 1 as int));
        i = i + 1;
    }
    assert(first_date_from(s@, i as int) is None);
    None
}

/// A tag link `tags/<slug>` starts at position `i` of `s`: the literal
/// `tags/` followed by at least one slug character.
pub open spec fn tag_url_at(s: Seq<char>, i: int) -> bool {
    &&& 0 <= i
    &&& i + 6 <= s.len()
    &&& s[i] == 't' && s[i + 1] == 'a' && s[i + 2] == 'g' && s[i + 3] == 's' && s[i + 4] == '/'
    &&& is_slug_char(s[i + 5])
}

/// The first position at or after `i` where a tag link starts, if any.
pub open spec fn first_tag_from(s: Seq<char>, i: int) -> Option<int>
    decreases s.len() - i,
{
    if i < 0 || i + 6 > s.len() {
        None
    } else if tag_url_at(s, i) {
        Some(i)
    } else {
        first_tag_from(s, i + 1)
    }
}

/// The end of the run of slug characters that starts at `j`.
pub open spec fn slug_end_from(s: Seq<char>, j: int) -> int
    decreases s.len() - j,
{
    if j < 0 || j >= s.len() {
        j
    } else if is_slug_char(s[j]) {
        slug_end_from(s, j + 1)
    } else {
        j
    }
}

proof fn lemma_slug_end_bounds(s: Seq<char>, j: int)
    requires
        0 <= j <= s.len(),
    ensures
        j <= slug_end_from(s, j) <= s.len(),
    decreases s.len() - j,
{
    if j < s.len() && is_slug_char(s[j]) {
        lemma_slug_end_bounds(s, j + 1);
    }
}

/// The slug of the first tag link in `s`: the maximal run of slug characters
/// after the first `tags/` that at least one such character follows.
pub open spec fn extract_tag_name_spec(s: Seq<char>) -> Option<Seq<char>> {
    match first_tag_from(s, 0) {
        Some(i) => Some(s.subrange(i + 5, slug_end_from(s, i + 5))),
        None => None,
    }
}

fn slug_char(c: char) -> (b: bool)
    ensures
        b == is_slug_char(c),
{
    c == '-' || ('a' <= c && c <= 'z') || ('A' <= c && c <= 'Z') || digit(c)
}

/// Whether a tag link starts at position `i`.
fn tag_url_starts_at(s: &str, i: usize) -> (b: bool)
    requires
        i + 6 <= s@.len(),
        s@.len() <= usize::MAX,
    ensures
        b == tag_url_at(s@, i as int),
{
    s.get_char(i) == 't' && s.get_char(i + 1) == 'a' && s.get_char(i + 2) == 'g' && s.get_char(
        i + 3,
    ) == 's' && s.get_char(i + 4) == '/' && slug_char(s.get_char(i + 5))
}

/// Extracts the slug of the first `tags/<slug>` occurrence in `url`.
pub fn extract_tag_name_from_url(url: &str) -> (r: Option<String>)
    ensures
        opt_view(r) == extract_tag_name_spec(url@),
{
    let n = url.unicode_len();
    if n < 6 {
        return None;
    }
    let mut i: usize = 0;
    while i <= n - 6
        invariant
            n == url@.len(),
            6 <= n,
            i <= n,
            first_tag_from(url@, 0) == first_tag_from(url@, i as int),
        decreases n - i,
    {
        if tag_url_starts_at(url, i) {
            let start = i + 5;
            let mut j: usize = start;
            proof {
                lemma_slug_end_bounds(url@, start as int);
            }
            while j < n && slug_char(url.get_char(j))
                invariant
                    n == url@.len(),
                    start <= j <= n,
                    slug_end_from(url@, start as int) == slug_end_from(url@, j as int),
                    slug_end_from(url@, j as int) <= n,
                decreases n - j,
            {
                j = j + 1;
            }
            assert(slug_end_from(url@, j as int) == j);
            let slug = url.substring_char(start, j);
            return Some(slug.to_owned());
        }
        assert(first_tag_from(url@, i as int) == first_tag_from(url@, i + 1 as int));
        i = i + 1;
    }
    assert(first_tag_from(url@, i as int) is None);
    None
}

/// The first non-space position at or after `j`.
pub open spec fn skip_spaces(s: Seq<char>, j: int) -> int
    decreases s.len() - j,
{
    if j < 0 || j >= s.len() {
        j
    } else if is_space(s[j]) {
        skip_spaces(s, j + 1)
    } else {
        j
    }
}

proof fn lemma_skip_spaces_bounds(s: Seq<char>, j: int)
    requires
        0 <= j <= s.len(),
    ensures
        j <= skip_spaces(s, j) <= s.len(),
    decreases s.len() - j,
{
    if j < s.len() && is_space(s[j]) {
        lemma_skip_spaces_bounds(s, j + 1);
    }
}

/// A zoom-disabling directive `user-scalable = no` or `user-scalable = 0`
/// (with optional whitespace around `=`) starts at position `i` of `s`.
pub open spec fn zoom_directive_at(s: Seq<char>, i: int) -> bool {
    &&& 0 <= i
    &&& i + 13 <= s.len()
    &&& s[i] == 'u' && s[i + 1] == 's' && s[i + 2] == 'e' && s[i + 3] == 'r' && s[i + 4] == '-'
    &&& s[i + 5] == 's' && s[i + 6] == 'c' && s[i + 7] == 'a' && s[i + 8] == 'l' && s[i + 9] == 'a'
    &&& s[i + 10] == 'b' && s[i + 11] == 'l' && s[i + 12] == 'e'
    &&& {
        let j = skip_spaces(s, i + 13);
        &&& j < s.len()
        &&& s[j] == '='
        &&& {
            let k = skip_spaces(s, j + 1);
            &&& k < s.len()
            &&& (s[k] == '0' || (s[k] == 'n' && k + 1 < s.len() && s[k + 1] == 'o'))
        }
    }
}

/// Whether `s` contains a zoom-disabling directive anywhere.
pub open spec fn disables_zoom_spec(s: Seq<char>) -> bool {
    exists|i: int| zoom_directive_at(s, i)
}

fn space(c: char) -> (b: bool)
    ensures
        b == is_space(c),
{
    c == ' ' || c == '\t' || c == '\n' || c == '\r' || c == '\u{b}' || c == '\u{c}'
}

/// Whether a zoom-disabling directive starts at position `i`.
fn zoom_directive_starts_at(s: &str, i: usize) -> (b: bool)
    requires
        i + 13 <= s@.len(),
        s@.len() <= usize::MAX,
    ensures
        b == zoom_directive_at(s@, i as int),
{
    let lit_ok = s.get_char(i) == 'u' && s.get_char(i + 1) == 's' && s.get_char(i + 2) == 'e'
        && s.get_char(i + 3) == 'r' && s.get_char(i + 4) == '-' && s.get_char(i + 5) == 's'
        && s.get_char(i + 6) == 'c' && s.get_char(i + 7) == 'a' && s.get_char(i + 8) == 'l'
        && s.get_char(i + 9) == 'a' && s.get_char(i + 10) == 'b' && s.get_char(i + 11) == 'l'
        && s.get_char(i + 12) == 'e';
    if !lit_ok {
        return false;
    }
    let n = s.unicode_len();
    let mut j: usize = i + 13;
    proof {
        lemma_skip_spaces_bounds(s@, i + 13);
    }
    while j < n && space(s.get_char(j))
        invariant
            n == s@.len(),
            i + 13 <= j <= n,
            skip_spaces(s@, i + 13) == skip_spaces(s@, j as int),
            skip_spaces(s@, j as int) <= n,
        decreases n - j,
    {
        j = j + 1;
    }
    assert(skip_spaces(s@, j as int) == j);
    if j >= n || s.get_char(j) != '=' {
        return false;
    }
    let mut k: usize = j + 1;
    proof {
        lemma_skip_spaces_bounds(s@, j + 1);
    }
    while k < n && space(s.get_char(k))
        invariant
            n == s@.len(),
            j + 1 <= k <= n,
            skip_spaces(s@, j + 1) == skip_spaces(s@, k as int),
            skip_spaces(s@, k as int) <= n,
        decreases n - k,
    {
        k = k + 1;
    }
    assert(skip_spaces(s@, k as int) == k);
    if k >= n {
        return false;
    }
    let c = s.get_char(k);
    c == '0' || (c == 'n' && k + 1 < n && s.get_char(k + 1) == 'o')
}

/// Whether `content` contains a directive that disables zooming.
pub fn disables_zoom(content: &str) -> (b: bool)
    ensures
        b == disables_zoom_spec(content@),
{
    let n = content.unicode_len();
    if n < 13 {
        return false;
    }
    let mut i: usize = 0;
    while i <= n - 13
        invariant
            n == content@.len(),
            13 <= n,
            i <= n,
            forall|m: int| 0 <= m < i ==> !zoom_directive_at(content@, m),
        decreases n - i,
    {
        if zoom_directive_starts_at(content, i) {
            assert(zoom_directive_at(content@, i as int));
            return true;
        }
        i = i + 1;
    }
    assert(forall|m: int| i <= m ==> !zoom_directive_at(content@, m));
    false
}

/// Whether every character of `s` is a decimal digit.
pub open spec fn all_digits(s: Seq<char>) -> bool {
    forall|k: int| 0 <= k < s.len() ==> is_digit(s[k])
}

/// Whether `s` is a decimal integer: an optional sign followed by at least
/// one digit and nothing else.
pub open spec fn is_numeric(s: Seq<char>) -> bool {
    if s.len() > 0 && (s[0] == '+' || s[0] == '-') {
        s.len() > 1 && all_digits(s.subrange(1, s.len() as int))
    } else {
        s.len() > 0 && all_digits(s)
    }
}

/// Whether `s` is a decimal integer whose value is strictly positive.
pub open spec fn is_positive_numeric(s: Seq<char>) -> bool {
    &&& is_numeric(s)
    &&& s[0] != '-'
    &&& exists|k: int| 0 <= k < s.len() && is_digit(s[k]) && s[k] != '0'
}

/// Whether `v` is a decimal integer greater than zero.
pub fn is_positive_number(v: &str) -> (b: bool)
    ensures
        b == is_positive_numeric(v@),
{
    let n = v.unicode_len();
    if n == 0 {
        return false;
    }
    let first = v.get_char(0);
    let start: usize = if first == '+' || first == '-' {
        1
    } else {
        0
    };
    if n == start {
        return false;
    }
    let mut i: usize = start;
    let mut nonzero = false;
    while i < n
        invariant
            n == v@.len(),
            start <= i <= n,
            start <= 1,
            (start == 1) == (v@[0] == '+' || v@[0] == '-'),
            forall|k: int| start <= k < i ==> is_digit(v@[k]),
            nonzero == exists|k: int| start <= k < i && is_digit(v@[k]) && v@[k] != '0',
        decreases n - i,
    {
        let c = v.get_char(i);
        if !digit(c) {
            assert(!is_numeric(v@)) by {
                if start == 1 {
                    assert(v@.subrange(1, v@.len() as int)[i - 1] == v@[i as int]);
                }
            }
            return false;
        }
        if c != '0' {
            nonzero = true;
        }
        i = i + 1;
    }
    if first == '-' {
        return false;
    }
    assert(is_numeric(v@)) by {
        if start == 1 {
            assert(forall|k: int|
                0 <= k < v@.len() - 1 ==> v@.subrange(1, v@.len() as int)[k] == v@[k + 1]);
        }
    }
    assert(nonzero == is_positive_numeric(v@)) by {
        if start == 1 {
            assert(!is_digit(v@[0]));
        }
    }
    nonzero
}

/// The first newline position at or after `j`, or the end of the text.
pub open spec fn line_end_from(s: Seq<char>, j: int) -> int
    decreases s.len() - j,
{
    if j < 0 || j >= s.len() {
        j
    } else if s[j] == '\n' {
        j
    } else {
        line_end_from(s, j + 1)
    }
}

/// Character-by-character string equality, stated over the views.
pub fn str_eq(a: &str, b: &str) -> (r: bool)
    ensures
        r == (a@ == b@),
{
    let n = a.unicode_len();
    let m = b.unicode_len();
    if n != m {
        return false;
    }
    let mut i: usize = 0;
    while i < n
        invariant
            n == a@.len(),
            n == b@.len(),
            i <= n,
            forall|k: int| 0 <= k < i ==> a@[k] == b@[k],
        decreases n - i,
    {
        if a.get_char(i) != b.get_char(i) {
            return false;
        }
        i = i + 1;
    }
    assert(a@ =~= b@);
    true
}

} // verus!
