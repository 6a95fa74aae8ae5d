//! Character-level text helpers shared by the whole library: conversion between `str`
//! and character vectors, whitespace trimming, line splitting, joining, decimal
//! rendering and substring search, each with the mathematical definition it meets.
use vstd::prelude::*;

verus! {

// ---------------------------------------------------------------------------
// Unicode character classes (std)
// ---------------------------------------------------------------------------

/// Whether `c` has the Unicode `White_Space` property (what `char::is_whitespace`
/// tests): tab to carriage return, space, NEL, no-break space, ogham space mark, the
/// spaces U+2000–U+200A, the line and paragraph separators, narrow no-break space,
/// medium mathematical space and ideographic space.
pub open spec fn char_is_whitespace(c: char) -> bool {
    let u = c as u32;
    (0x09 <= u && u <= 0x0d) || u == 0x20 || u == 0x85 || u == 0xa0 || u == 0x1680 || (0x2000
        <= u && u <= 0x200a) || u == 0x2028 || u == 0x2029 || u == 0x202f || u == 0x205f || u
        == 0x3000
}

/// Whether `c` is in the Unicode general category `Cc` (what `char::is_control` tests):
/// U+0000–U+001F and U+007F–U+009F.
pub open spec fn char_is_control(c: char) -> bool {
    let u = c as u32;
    u <= 0x1f || (0x7f <= u && u <= 0x9f)
}

/// Whether `c` is alphabetic or numeric in Unicode terms, as `char::is_alphanumeric`
/// decides.
pub uninterp spec fn char_is_alphanumeric(c: char) -> bool;

/// `char::is_whitespace` (see [`char_is_whitespace`]).
pub fn is_whitespace(c: char) -> (r: bool)
    ensures
        r == char_is_whitespace(c),
{
    let u = c as u32;
    (0x09 <= u && u <= 0x0d) || u == 0x20 || u == 0x85 || u == 0xa0 || u == 0x1680 || (0x2000
        <= u && u <= 0x200a) || u == 0x2028 || u == 0x2029 || u == 0x202f || u == 0x205f || u
        == 0x3000
}

/// `char::is_control` (see [`char_is_control`]).
pub fn is_control(c: char) -> (r: bool)
    ensures
        r == char_is_control(c),
{
    let u = c as u32;
    u <= 0x1f || (0x7f <= u && u <= 0x9f)
}

/// Calls `char::is_alphanumeric`; the contract names its answer `char_is_alphanumeric(c)`.
#[verifier::external_body]
pub(crate) fn is_alphanumeric(c: char) -> (r: bool)
    ensures
        r == char_is_alphanumeric(c),
{
    c.is_alphanumeric()
}

/// Calls `String::push`, which appends one character to the string.
#[verifier::external_body]
pub(crate) fn push_char(s: &mut String, c: char)
    ensures
        final(s)@ == old(s)@.push(c),
{
    s.push(c);
}

// ---------------------------------------------------------------------------
// Conversions
// ---------------------------------------------------------------------------

/// The characters of `s`, in order.
pub fn to_chars(s: &str) -> (r: Vec<char>)
    ensures
        r@ == s@,
{
    let mut r: Vec<char> = Vec::new();
    for c in it: s.chars()
        invariant
            r@ == it.seq().take(it.index() as int),
    {
        r.push(c);
    }
    r
}

/// The string made of the characters `v`.
pub fn from_chars(v: &[char]) -> (r: String)
    ensures
        r@ == v@,
{
    let mut r = String::new();
    let mut i: usize = 0;
    while i < v.len()
        invariant
            i <= v@.len(),
            r@ == v@.take(i as int),
        decreases v@.len() - i,
    {
        push_char(&mut r, v[i]);
        assert(v@.take(i as int).push(v@[i as int]) =~= v@.take(i + 1));
        i += 1;
    }
    assert(v@.take(v@.len() as int) =~= v@);
    r
}

/// Appends `suffix` to `s`.
pub fn push_str(s: &mut String, suffix: &str)
    ensures
        final(s)@ == old(s)@ + suffix@,
{
    s.append(suffix);
}

// ---------------------------------------------------------------------------
// Trimming
// ---------------------------------------------------------------------------

/// The first index at or after `i` whose character does not satisfy `p` (or the length).
pub open spec fn skip_while(s: Seq<char>, i: int, p: spec_fn(char) -> bool) -> int
    decreases s.len() - i,
{
    if 0 <= i < s.len() && p(s[i]) {
        skip_while(s, i + 1, p)
    } else {
        i
    }
}

/// Walking back from `j` (but not below `lo`), the first end index whose preceding
/// character does not satisfy `p`.
pub open spec fn skip_back_while(s: Seq<char>, lo: int, j: int, p: spec_fn(char) -> bool) -> int
    decreases j - lo,
{
    if lo < j && j <= s.len() && p(s[j - 1]) {
        skip_back_while(s, lo, j - 1, p)
    } else {
        j
    }
}

pub open spec fn ws() -> spec_fn(char) -> bool {
    |c: char| char_is_whitespace(c)
}

/// `str::trim_start`: drops leading whitespace.
pub open spec fn trim_start(s: Seq<char>) -> Seq<char> {
    s.skip(skip_while(s, 0, ws()))
}

/// `str::trim_end_matches(p)`: drops trailing characters that satisfy `p`.
pub open spec fn trim_end_by(s: Seq<char>, p: spec_fn(char) -> bool) -> Seq<char> {
    s.take(skip_back_while(s, 0, s.len() as int, p))
}

/// `str::trim`: drops leading and trailing whitespace.
pub open spec fn trim(s: Seq<char>) -> Seq<char> {
    let a = skip_while(s, 0, ws());
    s.subrange(a, skip_back_while(s, a, s.len() as int, ws()))
}

pub proof fn lemma_skip_while_bounds(s: Seq<char>, i: int, p: spec_fn(char) -> bool)
    requires
        0 <= i <= s.len(),
    ensures
        i <= skip_while(s, i, p) <= s.len(),
        skip_while(s, i, p) < s.len() ==> !p(s[skip_while(s, i, p)]),
        forall|k: int| i <= k < skip_while(s, i, p) ==> p(#[trigger] s[k]),
    decreases s.len() - i,
{
    if i < s.len() && p(s[i]) {
        lemma_skip_while_bounds(s, i + 1, p);
    }
}

pub proof fn lemma_skip_back_while_bounds(s: Seq<char>, lo: int, j: int, p: spec_fn(char) -> bool)
    requires
        0 <= lo <= j <= s.len(),
    ensures
        lo <= skip_back_while(s, lo, j, p) <= j,
        lo < skip_back_while(s, lo, j, p) ==> !p(s[skip_back_while(s, lo, j, p) - 1]),
        forall|k: int| skip_back_while(s, lo, j, p) <= k < j ==> p(#[trigger] s[k]),
    decreases j - lo,
{
    if lo < j && p(s[j - 1]) {
        lemma_skip_back_while_bounds(s, lo, j - 1, p);
    }
}

/// Index of the first non-whitespace character at or after `start`.
fn skip_ws(v: &Vec<char>, start: usize) -> (r: usize)
    requires
        start <= v@.len(),
    ensures
        r as int == skip_while(v@, start as int, ws()),
{
    let mut i = start;
    while i < v.len() && is_whitespace(v[i])
        invariant
            start <= i <= v@.len(),
            skip_while(v@, start as int, ws()) == skip_while(v@, i as int, ws()),
        decreases v@.len() - i,
    {
        i += 1;
    }
    i
}

/// End index after dropping trailing whitespace from `v[lo..end]`.
fn skip_ws_back(v: &Vec<char>, lo: usize, end: usize) -> (r: usize)
    requires
        lo <= end <= v@.len(),
    ensures
        r as int == skip_back_while(v@, lo as int, end as int, ws()),
{
    let mut j = end;
    while j > lo && is_whitespace(v[j - 1])
        invariant
            lo <= j <= end,
            end <= v@.len(),
            skip_back_while(v@, lo as int, end as int, ws()) == skip_back_while(
                v@,
                lo as int,
                j as int,
                ws(),
            ),
        decreases j - lo,
    {
        j -= 1;
    }
    j
}

/// Bounds `[a, b)` of the whitespace-trimmed part of `v`.
pub fn trim_bounds(v: &Vec<char>) -> (r: (usize, usize))
    ensures
        r.0 <= r.1 <= v@.len(),
        v@.subrange(r.0 as int, r.1 as int) == trim(v@),
        r.0 as int == skip_while(v@, 0, ws()),
{
    let a = skip_ws(v, 0);
    proof {
        lemma_skip_while_bounds(v@, 0, ws());
    }
    let b = skip_ws_back(v, a, v.len());
    proof {
        lemma_skip_back_while_bounds(v@, a as int, v@.len() as int, ws());
    }
    (a, b)
}

/// `str::trim` on a character vector.
pub fn trim_chars(v: &Vec<char>) -> (r: Vec<char>)
    ensures
        r@ == trim(v@),
{
    let (a, b) = trim_bounds(v);
    slice_chars(v, a, b)
}

/// `str::trim`.
pub fn trim_str(s: &str) -> (r: String)
    ensures
        r@ == trim(s@),
{
    let v = to_chars(s);
    let t = trim_chars(&v);
    from_chars(t.as_slice())
}

/// Whether `s` holds only whitespace (`s.trim().is_empty()`).
pub fn is_blank(s: &str) -> (r: bool)
    ensures
        r == (trim(s@).len() == 0),
{
    let v = to_chars(s);
    let (a, b) = trim_bounds(&v);
    a == b
}

/// `v[a..b]` as a new vector.
pub fn slice_chars(v: &Vec<char>, a: usize, b: usize) -> (r: Vec<char>)
    requires
        a <= b <= v@.len(),
    ensures
        r@ == v@.subrange(a as int, b as int),
{
    let mut r: Vec<char> = Vec::new();
    let mut i = a;
    while i < b
        invariant
            a <= i <= b,
            b <= v@.len(),
            r@ == v@.subrange(a as int, i as int),
        decreases b - i,
    {
        r.push(v[i]);
        assert(v@.subrange(a as int, i as int).push(v@[i as int]) =~= v@.subrange(
            a as int,
            i + 1,
        ));
        i += 1;
    }
    r
}

// ---------------------------------------------------------------------------
// Lines
// ---------------------------------------------------------------------------

/// The index of the first `'\n'` at or after `i`, or the length.
pub open spec fn next_newline(s: Seq<char>, i: int) -> int
    decreases s.len() - i,
{
    if 0 <= i < s.len() && s[i] != '\n' {
        next_newline(s, i + 1)
    } else {
        i
    }
}

/// Drops one trailing `'\r'`.
pub open spec fn strip_cr(s: Seq<char>) -> Seq<char> {
    if s.len() > 0 && s.last() == '\r' {
        s.drop_last()
    } else {
        s
    }
}

/// `str::lines` on the suffix of `s` from `i`: each line ends at `'\n'`, a `"\r\n"` ending
/// loses its `'\r'`, and a final empty line is not produced.
pub open spec fn lines_from(s: Seq<char>, i: int) -> Seq<Seq<char>>
    decreases s.len() - i,
{
    if i < 0 || i >= s.len() {
        Seq::empty()
    } else {
        let k = next_newline(s, i);
        proof {
            lemma_next_newline(s, i);
        }
        if k >= s.len() {
            seq![s.subrange(i, s.len() as int)]
        } else {
            seq![strip_cr(s.subrange(i, k))] + lines_from(s, k + 1)
        }
    }
}

/// `str::lines`.
pub open spec fn lines(s: Seq<char>) -> Seq<Seq<char>> {
    lines_from(s, 0)
}

pub proof fn lemma_next_newline(s: Seq<char>, i: int)
    requires
        0 <= i <= s.len(),
    ensures
        i <= next_newline(s, i) <= s.len(),
        next_newline(s, i) < s.len() ==> s[next_newline(s, i)] == '\n',
        forall|k: int| i <= k < next_newline(s, i) ==> #[trigger] s[k] != '\n',
    decreases s.len() - i,
{
    if i < s.len() && s[i] != '\n' {
        lemma_next_newline(s, i + 1);
    }
}

/// Index of the next `'\n'` at or after `i`, or the length.
fn find_newline(v: &Vec<char>, i: usize) -> (r: usize)
    requires
        i <= v@.len(),
    ensures
        r as int == next_newline(v@, i as int),
{
    let mut k = i;
    while k < v.len() && v[k] != '\n'
        invariant
            i <= k <= v@.len(),
            next_newline(v@, i as int) == next_newline(v@, k as int),
        decreases v@.len() - k,
    {
        k += 1;
    }
    k
}

/// `str::lines` on a character vector.
pub fn split_lines(v: &Vec<char>) -> (r: Vec<Vec<char>>)
    ensures
        r@.len() == lines(v@).len(),
        forall|j: int| 0 <= j < r@.len() ==> #[trigger] r@[j]@ == lines(v@)[j],
{
    let mut r: Vec<Vec<char>> = Vec::new();
    let mut i: usize = 0;
    while i < v.len()
        invariant
            i <= v@.len(),
            r@.len() + lines_from(v@, i as int).len() == lines(v@).len(),
            forall|j: int| 0 <= j < r@.len() ==> #[trigger] r@[j]@ == lines(v@)[j],
            forall|j: int|
                0 <= j < lines_from(v@, i as int).len() ==> lines(v@)[r@.len() + j]
                    == #[trigger] lines_from(v@, i as int)[j],
        decreases v@.len() - i,
    {
        let k = find_newline(v, i);
        proof {
            lemma_next_newline(v@, i as int);
        }
        if k >= v.len() {
            let line = slice_chars(v, i, v.len());
            proof {
                assert(lines_from(v@, i as int) == seq![v@.subrange(i as int, v@.len() as int)]);
                assert(lines_from(v@, i as int)[0] == line@);
                assert(lines_from(v@, v@.len() as int).len() == 0);
            }
            r.push(line);
            i = v.len();
        } else {
            let mut line = slice_chars(v, i, k);
            if line.len() > 0 && line[line.len() - 1] == '\r' {
                line.pop();
            }
            proof {
                assert(line@ == strip_cr(v@.subrange(i as int, k as int)));
                let rest = lines_from(v@, k + 1);
                assert(lines_from(v@, i as int) == seq![strip_cr(v@.subrange(i as int, k as int))]
                    + rest);
                assert forall|j: int| 0 <= j < rest.len() implies lines(v@)[r@.len() + 1 + j]
                    == #[trigger] rest[j] by {
                    assert(lines_from(v@, i as int)[j + 1] == rest[j]);
                }
                assert(lines_from(v@, i as int)[0] == line@);
                assert(lines(v@)[r@.len() as int] == line@);
            }
            r.push(line);
            i = k + 1;
        }
    }
    r
}

// ---------------------------------------------------------------------------
// Joining
// ---------------------------------------------------------------------------

/// `parts.join(sep)`.
pub open spec fn join(parts: Seq<Seq<char>>, sep: Seq<char>) -> Seq<char>
    decreases parts.len(),
{
    if parts.len() == 0 {
        Seq::empty()
    } else if parts.len() == 1 {
        parts[0]
    } else {
        join(parts.drop_last(), sep) + sep + parts.last()
    }
}

/// The views of a vector of strings.
pub open spec fn views(v: Seq<String>) -> Seq<Seq<char>> {
    v.map_values(|s: String| s@)
}

/// `parts.join(sep)` for owned strings.
pub fn join_strings(parts: &Vec<String>, sep: &str) -> (r: String)
    ensures
        r@ == join(views(parts@), sep@),
{
    let mut r = String::new();
    let mut i: usize = 0;
    while i < parts.len()
        invariant
            i <= parts@.len(),
            r@ == join(views(parts@).take(i as int), sep@),
        decreases parts@.len() - i,
    {
        let ghost before = views(parts@).take(i as int);
        if i > 0 {
            r.append(sep);
        }
        r.append(parts[i].as_str());
        proof {
            let after = views(parts@).take(i + 1);
            assert(after.drop_last() =~= before);
            assert(after.last() == parts@[i as int]@);
            if i == 0 {
                assert(after.len() == 1);
            }
        }
        i += 1;
    }
    assert(views(parts@).take(parts@.len() as int) =~= views(parts@));
    r
}

// ---------------------------------------------------------------------------
// Decimal rendering
// ---------------------------------------------------------------------------

pub open spec fn digit_char(d: nat) -> char {
    if d == 0 {
        '0'
    } else if d == 1 {
        '1'
    } else if d == 2 {
        '2'
    } else if d == 3 {
        '3'
    } else if d == 4 {
        '4'
    } else if d == 5 {
        '5'
    } else if d == 6 {
        '6'
    } else if d == 7 {
        '7'
    } else if d == 8 {
        '8'
    } else {
        '9'
    }
}

/// The decimal representation of `n` (what `format!("{n}")` prints).
pub open spec fn decimal(n: nat) -> Seq<char>
    decreases n,
{
    if n < 10 {
        seq![digit_char(n)]
    } else {
        decimal(n / 10).push(digit_char(n % 10))
    }
}

fn digit(d: u64) -> (c: char)
    requires
        d < 10,
    ensures
        c == digit_char(d as nat),
{
    if d == 0 {
        '0'
    } else if d == 1 {
        '1'
    } else if d == 2 {
        '2'
    } else if d == 3 {
        '3'
    } else if d == 4 {
        '4'
    } else if d == 5 {
        '5'
    } else if d == 6 {
        '6'
    } else if d == 7 {
        '7'
    } else if d == 8 {
        '8'
    } else {
        '9'
    }
}

fn push_decimal(out: &mut String, n: u64)
    ensures
        final(out)@ == old(out)@ + decimal(n as nat),
    decreases n,
{
    if n >= 10 {
        push_decimal(out, n / 10);
    }
    push_char(out, digit(n % 10));
    proof {
        if n < 10 {
            assert(n % 10 == n);
        }
    }
}

/// Appends the decimal representation of `n`.
pub fn push_u64(s: &mut String, n: u64)
    ensures
        final(s)@ == old(s)@ + decimal(n as nat),
{
    push_decimal(s, n);
}

/// The decimal representation of a signed integer (a leading `-` when negative).
pub open spec fn signed_decimal(i: int) -> Seq<char> {
    if i < 0 {
        seq!['-'] + decimal((-i) as nat)
    } else {
        decimal(i as nat)
    }
}

/// What `{:?}` prints for an optional exit code: `Some(<code>)` or `None`.
pub open spec fn debug_exit(code: Option<i32>) -> Seq<char> {
    match code {
        Some(c) => "Some("@ + signed_decimal(c as int) + ")"@,
        None => "None"@,
    }
}

/// Appends the decimal representation of `n`.
pub fn push_i32(s: &mut String, n: i32)
    ensures
        final(s)@ == old(s)@ + signed_decimal(n as int),
{
    if n < 0 {
        push_char(s, '-');
        let magnitude: u64 = (0i64 - (n as i64)) as u64;
        push_decimal(s, magnitude);
        assert(final(s)@ =~= old(s)@ + signed_decimal(n as int));
    } else {
        push_decimal(s, n as u64);
    }
}

/// Appends what `{:?}` prints for an optional exit code.
pub fn push_debug_exit(s: &mut String, code: Option<i32>)
    ensures
        final(s)@ == old(s)@ + debug_exit(code),
{
    match code {
        Some(c) => {
            push_str(s, "Some(");
            push_i32(s, c);
            push_str(s, ")");
        },
        None => push_str(s, "None"),
    }
}

// ---------------------------------------------------------------------------
// ASCII case and substring search
// ---------------------------------------------------------------------------

/// `char::to_ascii_lowercase`.
pub open spec fn ascii_lower(c: char) -> char {
    if 'A' <= c && c <= 'Z' {
        ((c as u32) + 32) as char
    } else {
        c
    }
}

pub open spec fn ascii_lower_seq(s: Seq<char>) -> Seq<char> {
    s.map_values(|c: char| ascii_lower(c))
}

pub fn to_ascii_lowercase(c: char) -> (r: char)
    ensures
        r == ascii_lower(c),
{
    if 'A' <= c && c <= 'Z' {
        let u = (c as u32) + 32;
        // 'a'..='z' are valid scalar values
        let d = if u == 97 {
            'a'
        } else {
            char_from_ascii_lower(u)
        };
        d
    } else {
        c
    }
}

fn char_from_ascii_lower(u: u32) -> (c: char)
    requires
        97 <= u <= 122,
    ensures
        c == u as char,
{
    let b: u8 = u as u8;
    assert(b as u32 == u);
    b as char
}

/// `str::to_ascii_lowercase` on a character vector.
pub fn lowercase_ascii(v: &Vec<char>) -> (r: Vec<char>)
    ensures
        r@ == ascii_lower_seq(v@),
{
    let mut r: Vec<char> = Vec::new();
    let mut i: usize = 0;
    while i < v.len()
        invariant
            i <= v@.len(),
            r@ == ascii_lower_seq(v@.take(i as int)),
        decreases v@.len() - i,
    {
        r.push(to_ascii_lowercase(v[i]));
        assert(ascii_lower_seq(v@.take(i + 1)) =~= ascii_lower_seq(v@.take(i as int)).push(
            ascii_lower(v@[i as int]),
        ));
        i += 1;
    }
    assert(v@.take(v@.len() as int) =~= v@);
    r
}

/// Whether two strings hold the same characters.
pub fn str_eq(a: &str, b: &str) -> (r: bool)
    ensures
        r == (a@ == b@),
{
    let x = to_chars(a);
    let y = to_chars(b);
    if x.len() != y.len() {
        return false;
    }
    let mut i: usize = 0;
    while i < x.len()
        invariant
            i <= x@.len(),
            x@.len() == y@.len(),
            x@ == a@,
            y@ == b@,
            forall|k: int| 0 <= k < i ==> x@[k] == y@[k],
        decreases x@.len() - i,
    {
        if x[i] != y[i] {
            assert(x@[i as int] != y@[i as int]);
            return false;
        }
        i += 1;
    }
    assert(x@ =~= y@);
    true
}

/// `needle` occurs in `hay` starting at index `i`.
pub open spec fn occurs_at(hay: Seq<char>, needle: Seq<char>, i: int) -> bool {
    0 <= i && i + needle.len() <= hay.len() && hay.subrange(i, i + needle.len()) == needle
}

/// `hay.contains(needle)`.
pub open spec fn contains(hay: Seq<char>, needle: Seq<char>) -> bool {
    exists|i: int| occurs_at(hay, needle, i)
}

/// Whether `needle` occurs in `hay` at `i`.
pub fn matches_at(hay: &Vec<char>, needle: &Vec<char>, i: usize) -> (r: bool)
    ensures
        r == occurs_at(hay@, needle@, i as int),
{
    if i > hay.len() || needle.len() > hay.len() - i {
        return false;
    }
    let mut k: usize = 0;
    while k < needle.len()
        invariant
            k <= needle@.len(),
            i + needle.len() <= hay.len(),
            forall|m: int| 0 <= m < k ==> hay@[i + m] == needle@[m],
        decreases needle@.len() - k,
    {
        if hay[i + k] != needle[k] {
            proof {
                assert(hay@.subrange(i as int, i + needle@.len())[k as int] != needle@[k as int]);
            }
            return false;
        }
        k += 1;
    }
    assert(hay@.subrange(i as int, i + needle@.len()) =~= needle@);
    true
}

/// `hay.contains(needle)`.
pub fn contains_chars(hay: &Vec<char>, needle: &Vec<char>) -> (r: bool)
    ensures
        r == contains(hay@, needle@),
{
    if needle.len() > hay.len() {
        return false;
    }
    let last = hay.len() - needle.len();
    let mut i: usize = 0;
    loop
        invariant
            i <= last,
            last + needle@.len() == hay@.len(),
            forall|j: int| 0 <= j < i ==> !occurs_at(hay@, needle@, j),
        ensures
            forall|j: int| 0 <= j <= last ==> !occurs_at(hay@, needle@, j),
        decreases last - i,
    {
        if matches_at(hay, needle, i) {
            return true;
        }
        if i == last {
            break;
        }
        i += 1;
    }
    assert forall|j: int| !occurs_at(hay@, needle@, j) by {
        if 0 <= j <= last {
        }
    }
    false
}

} // verus!

verus! {

/// The first index in `[i, n)` satisfying `p`, or `n` when there is none.
pub open spec fn first_from(n: int, i: int, p: spec_fn(int) -> bool) -> int
    decreases n - i,
{
    if i < n {
        if p(i) {
            i
        } else {
            first_from(n, i + 1, p)
        }
    } else {
        n
    }
}

pub proof fn lemma_first_from(n: int, i: int, p: spec_fn(int) -> bool)
    requires
        i <= n,
    ensures
        i <= first_from(n, i, p) <= n,
        first_from(n, i, p) < n ==> p(first_from(n, i, p)),
        forall|k: int| i <= k < first_from(n, i, p) ==> !#[trigger] p(k),
    decreases n - i,
{
    if i < n && !p(i) {
        lemma_first_from(n, i + 1, p);
    }
}

/// Whether `c` is an ASCII digit.
pub open spec fn is_digit(c: char) -> bool {
    '0' <= c && c <= '9'
}

/// Appends `x` unless it is already present (order of first occurrences is kept).
pub open spec fn push_unique<T>(acc: Seq<T>, x: T) -> Seq<T> {
    if acc.contains(x) {
        acc
    } else {
        acc.push(x)
    }
}

/// Left fold of [`push_unique`] over `xs`.
pub open spec fn dedup_into<T>(acc: Seq<T>, xs: Seq<T>) -> Seq<T>
    decreases xs.len(),
{
    if xs.len() == 0 {
        acc
    } else {
        dedup_into(push_unique(acc, xs[0]), xs.drop_first())
    }
}

/// Folding with [`push_unique`] keeps a sequence free of repetitions and holds exactly the
/// elements of the accumulator and of the input.
pub proof fn lemma_dedup_into<T>(acc: Seq<T>, xs: Seq<T>)
    requires
        acc.no_duplicates(),
    ensures
        dedup_into(acc, xs).no_duplicates(),
        forall|x: T| #[trigger]
            dedup_into(acc, xs).contains(x) <==> (acc.contains(x) || xs.contains(x)),
    decreases xs.len(),
{
    if xs.len() > 0 {
        let a2 = push_unique(acc, xs[0]);
        if !acc.contains(xs[0]) {
            assert forall|i: int, j: int| 0 <= i < j < a2.len() implies a2[i] != a2[j] by {
                if j == acc.len() {
                    assert(acc.contains(a2[i]));
                }
            }
        }
        assert forall|x: T| #[trigger] a2.contains(x) <==> (acc.contains(x) || x == xs[0]) by {
            if a2.contains(x) && !acc.contains(x) {
                let k = choose|k: int| 0 <= k < a2.len() && a2[k] == x;
                assert(k == acc.len());
            }
            if x == xs[0] && !acc.contains(x) {
                assert(a2[acc.len() as int] == x);
            }
            if acc.contains(x) && !acc.contains(xs[0]) {
                let k = choose|k: int| 0 <= k < acc.len() && acc[k] == x;
                assert(a2[k] == x);
            }
        }
        lemma_dedup_into(a2, xs.drop_first());
        assert forall|x: T| #[trigger] xs.contains(x) <==> (x == xs[0] || xs.drop_first().contains(
            x,
        )) by {
            if xs.contains(x) && x != xs[0] {
                let k = choose|k: int| 0 <= k < xs.len() && xs[k] == x;
                assert(xs.drop_first()[k - 1] == x);
            }
            if xs.drop_first().contains(x) {
                let k = choose|k: int| 0 <= k < xs.drop_first().len() && xs.drop_first()[k] == x;
                assert(xs[k + 1] == x);
            }
        }
    }
}

/// Whether `v` holds a string equal to `s`.
pub fn contains_string(v: &Vec<String>, s: &String) -> (r: bool)
    ensures
        r == views(v@).contains(s@),
{
    let mut i: usize = 0;
    while i < v.len()
        invariant
            i <= v@.len(),
            forall|k: int| 0 <= k < i ==> v@[k]@ != s@,
        decreases v@.len() - i,
    {
        if v[i] == *s {
            assert(views(v@)[i as int] == s@);
            return true;
        }
        i += 1;
    }
    proof {
        if views(v@).contains(s@) {
            let k = choose|k: int| 0 <= k < views(v@).len() && views(v@)[k] == s@;
            assert(v@[k]@ == s@);
        }
    }
    false
}

/// Pushes `s` onto `v` unless an equal string is already there.
pub fn push_unique_string(v: &mut Vec<String>, s: String)
    ensures
        views(final(v)@) == push_unique(views(old(v)@), s@),
{
    if !contains_string(v, &s) {
        let ghost old_v = v@;
        v.push(s);
        assert(views(v@) =~= views(old_v).push(s@));
    }
}

} // verus!
