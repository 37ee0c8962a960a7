//! The text of HTTP-style heads: lines, whitespace-separated tokens,
//! `name: value` fields, comma-separated lists and case-insensitive
//! comparison. Everything here works on the characters of the text.
use vstd::prelude::*;
use vstd::slice::{slice_subrange, slice_to_vec};
use vstd::utf8::encode_utf8;

use crate::text::{message_with_text, owned};
use crate::{Error, Result};

verus! {

/// `char::is_whitespace`: the characters with the Unicode `White_Space` property.
pub open spec fn is_space(c: char) -> bool {
    let u = c as u32;
    (9 <= u <= 13) || u == 0x20 || u == 0x85 || u == 0xa0 || u == 0x1680 || (0x2000 <= u <= 0x200a)
        || u == 0x2028 || u == 0x2029 || u == 0x202f || u == 0x205f || u == 0x3000
}

/// The first index at or after `i` that is not whitespace (or the end).
pub open spec fn skip_space(s: Seq<char>, i: int) -> int
    decreases s.len() - i,
{
    if 0 <= i < s.len() && is_space(s[i]) {
        skip_space(s, i + 1)
    } else {
        i
    }
}

/// The first index at or after `i` that is whitespace (or the end).
pub open spec fn skip_word(s: Seq<char>, i: int) -> int
    decreases s.len() - i,
{
    if 0 <= i < s.len() && !is_space(s[i]) {
        skip_word(s, i + 1)
    } else {
        i
    }
}

/// `b` moved back over the whitespace that ends `s[a..b]`.
pub open spec fn trim_back(s: Seq<char>, a: int, b: int) -> int
    decreases b - a,
{
    if a < b && 0 < b <= s.len() && is_space(s[b - 1]) {
        trim_back(s, a, b - 1)
    } else {
        b
    }
}

/// `str::trim`: `s` without leading and trailing whitespace.
pub open spec fn trim(s: Seq<char>) -> Seq<char> {
    let a = skip_space(s, 0);
    s.subrange(a, trim_back(s, a, s.len() as int))
}

/// `char::to_ascii_lowercase`.
pub open spec fn ascii_lower(c: char) -> char {
    if 'A' <= c <= 'Z' {
        ((c as u32) + 32) as char
    } else {
        c
    }
}

/// `str::eq_ignore_ascii_case`: equal up to the case of ASCII letters.
pub open spec fn eq_ignore_case(x: Seq<char>, y: Seq<char>) -> bool {
    x.len() == y.len() && forall|i: int| 0 <= i < x.len() ==> ascii_lower(#[trigger] x[i]) == ascii_lower(y[i])
}

/// `s` begins with `p`.
pub open spec fn starts_with(s: Seq<char>, p: Seq<char>) -> bool {
    p.len() <= s.len() && s.take(p.len() as int) == p
}

/// The first index at or after `i` where `c` occurs, or -1.
pub open spec fn find_char(s: Seq<char>, c: char, i: int) -> int
    decreases s.len() - i,
{
    if i < 0 || i >= s.len() {
        -1
    } else if s[i] == c {
        i
    } else {
        find_char(s, c, i + 1)
    }
}

/// A line break `\r\n` starts at `i`.
pub open spec fn crlf_at(s: Seq<char>, i: int) -> bool {
    0 <= i && i + 1 < s.len() && s[i] == '\r' && s[i + 1] == '\n'
}

/// The first line break at or after `i`, or -1.
pub open spec fn next_crlf(s: Seq<char>, i: int) -> int
    decreases s.len() - i,
{
    if i < 0 || i + 1 >= s.len() {
        -1
    } else if crlf_at(s, i) {
        i
    } else {
        next_crlf(s, i + 1)
    }
}

/// Where the line that starts at `i` ends.
pub open spec fn line_end(s: Seq<char>, i: int) -> int {
    let j = next_crlf(s, i);
    if j >= 0 {
        j
    } else {
        s.len() as int
    }
}

/// Where the line after the one that starts at `i` starts; past the end
/// when that line is the last.
pub open spec fn line_next(s: Seq<char>, i: int) -> int {
    let j = next_crlf(s, i);
    if j >= 0 {
        j + 2
    } else {
        (s.len() + 1) as int
    }
}

/// `str::split_once(':')` on a field line.
pub open spec fn split_field(line: Seq<char>) -> Option<(Seq<char>, Seq<char>)> {
    let k = find_char(line, ':', 0);
    if k < 0 {
        None
    } else {
        Some((line.take(k), line.skip(k + 1)))
    }
}

/// The fields of the lines from `i` on (`str::split("\r\n")`): each line
/// is split at its first colon and both sides are trimmed; a line without
/// a colon refuses the whole. A blank line ends the fields when
/// `stop_at_blank`, and is skipped otherwise.
pub open spec fn fields_from(s: Seq<char>, i: int, stop_at_blank: bool) -> Option<Seq<(Seq<char>, Seq<char>)>>
    decreases s.len() + 1 - i,
{
    if i < 0 || i > s.len() {
        Some(Seq::empty())
    } else {
        proof {
            lemma_next_crlf(s, i);
        }
        let line = s.subrange(i, line_end(s, i));
        if line.len() == 0 {
            if stop_at_blank {
                Some(Seq::empty())
            } else {
                fields_from(s, line_next(s, i), stop_at_blank)
            }
        } else {
            match split_field(line) {
                None => None,
                Some((name, value)) => match fields_from(s, line_next(s, i), stop_at_blank) {
                    Some(rest) => Some(seq![(trim(name), trim(value))] + rest),
                    None => None,
                },
            }
        }
    }
}

/// The value of the first field whose name equals `name` up to ASCII case.
pub open spec fn field_value(fields: Seq<(Seq<char>, Seq<char>)>, name: Seq<char>) -> Option<Seq<char>>
    decreases fields.len(),
{
    if fields.len() == 0 {
        None
    } else if eq_ignore_case(fields[0].0, name) {
        Some(fields[0].1)
    } else {
        field_value(fields.drop_first(), name)
    }
}

/// `str::split(c)` from index `i`: the pieces between occurrences of `c`.
pub open spec fn pieces_from(s: Seq<char>, c: char, i: int) -> Seq<Seq<char>>
    decreases s.len() + 1 - i,
{
    if i < 0 || i > s.len() {
        Seq::empty()
    } else {
        proof {
            lemma_find_char(s, c, i);
        }
        let k = find_char(s, c, i);
        if k < 0 {
            seq![s.subrange(i, s.len() as int)]
        } else {
            seq![s.subrange(i, k)] + pieces_from(s, c, k + 1)
        }
    }
}

/// The pieces of `s` between occurrences of `c`, each trimmed.
pub open spec fn trimmed_pieces(s: Seq<char>, c: char) -> Seq<Seq<char>> {
    pieces_from(s, c, 0).map_values(|p: Seq<char>| trim(p))
}

/// Some comma-separated token of `s`, trimmed, equals `word` up to ASCII case.
pub open spec fn has_token(s: Seq<char>, word: Seq<char>) -> bool {
    exists|k: int| 0 <= k < trimmed_pieces(s, ',').len() && eq_ignore_case(#[trigger] trimmed_pieces(s, ',')[k], word)
}

/// The first three whitespace-separated tokens of a line
/// (`split_whitespace`), each empty when missing.
pub open spec fn three_tokens(line: Seq<char>) -> (Seq<char>, Seq<char>, Seq<char>) {
    let a1 = skip_space(line, 0);
    let b1 = skip_word(line, a1);
    let a2 = skip_space(line, b1);
    let b2 = skip_word(line, a2);
    let a3 = skip_space(line, b2);
    let b3 = skip_word(line, a3);
    (line.subrange(a1, b1), line.subrange(a2, b2), line.subrange(a3, b3))
}

pub proof fn lemma_next_crlf(s: Seq<char>, i: int)
    ensures
        next_crlf(s, i) == -1 || (i <= next_crlf(s, i) && crlf_at(s, next_crlf(s, i))),
        next_crlf(s, i) >= 0 ==> forall|j: int| i <= j < next_crlf(s, i) ==> !crlf_at(s, j),
        next_crlf(s, i) == -1 && 0 <= i ==> forall|j: int| i <= j ==> !crlf_at(s, j),
    decreases s.len() - i,
{
    if !(i < 0 || i + 1 >= s.len()) && !crlf_at(s, i) {
        lemma_next_crlf(s, i + 1);
    }
}

pub proof fn lemma_find_char(s: Seq<char>, c: char, i: int)
    ensures
        find_char(s, c, i) == -1 || (i <= find_char(s, c, i) < s.len() && s[find_char(s, c, i)] == c),
        0 <= i ==> forall|j: int| i <= j < (if find_char(s, c, i) >= 0 { find_char(s, c, i) } else { s.len() as int }) ==> s[j] != c,
    decreases s.len() - i,
{
    if 0 <= i < s.len() && s[i] != c {
        lemma_find_char(s, c, i + 1);
    }
}

pub proof fn lemma_skip_space(s: Seq<char>, i: int)
    requires
        0 <= i <= s.len(),
    ensures
        i <= skip_space(s, i) <= s.len(),
    decreases s.len() - i,
{
    if i < s.len() && is_space(s[i]) {
        lemma_skip_space(s, i + 1);
    }
}

pub proof fn lemma_skip_word(s: Seq<char>, i: int)
    requires
        0 <= i <= s.len(),
    ensures
        i <= skip_word(s, i) <= s.len(),
    decreases s.len() - i,
{
    if i < s.len() && !is_space(s[i]) {
        lemma_skip_word(s, i + 1);
    }
}

pub proof fn lemma_trim_back(s: Seq<char>, a: int, b: int)
    requires
        0 <= a <= b <= s.len(),
    ensures
        a <= trim_back(s, a, b) <= b,
    decreases b - a,
{
    if a < b && 0 < b && is_space(s[b - 1]) {
        lemma_trim_back(s, a, b - 1);
    }
}

/// A field line is split at its first colon: the name is what stands
/// before it and holds no colon, the value is everything after it, colons
/// included; a line without a colon is refused.
pub proof fn lemma_field_split_at_first_colon(line: Seq<char>)
    ensures
        split_field(line) is None <==> (forall|j: int| 0 <= j < line.len() ==> line[j] != ':'),
        split_field(line) matches Some((name, value)) ==> (line == name + seq![':'] + value
            && forall|j: int| 0 <= j < name.len() ==> name[j] != ':'),
{
    lemma_find_char(line, ':', 0);
    let k = find_char(line, ':', 0);
    if k >= 0 {
        assert(line =~= line.take(k) + seq![':'] + line.skip(k + 1));
    }
}

/// Trimming keeps a run of `s`: every character of `trim(s)` is one of `s`.
proof fn lemma_trim_within(s: Seq<char>)
    ensures
        forall|j: int| 0 <= j < trim(s).len() ==> exists|m: int| 0 <= m < s.len() && s[m] == #[trigger] trim(s)[j],
{
    let a = skip_space(s, 0);
    lemma_skip_space(s, 0);
    lemma_trim_back(s, a, s.len() as int);
    assert forall|j: int| 0 <= j < trim(s).len() implies exists|m: int| 0 <= m < s.len() && s[m] == #[trigger] trim(s)[j] by {
        assert(s[a + j] == trim(s)[j]);
    }
}

/// No header name that the field parser gives holds a colon: each line is
/// cut at its first colon.
pub proof fn lemma_field_names_hold_no_colon(s: Seq<char>, i: int, stop_at_blank: bool)
    ensures
        fields_from(s, i, stop_at_blank) matches Some(fs) ==> forall|k: int, j: int|
            0 <= k < fs.len() && 0 <= j < fs[k].0.len() ==> #[trigger] fs[k].0[j] != ':',
    decreases s.len() + 1 - i,
{
    if !(i < 0 || i > s.len()) {
        lemma_next_crlf(s, i);
        let line = s.subrange(i, line_end(s, i));
        if line.len() == 0 {
            if !stop_at_blank {
                lemma_field_names_hold_no_colon(s, line_next(s, i), stop_at_blank);
            }
        } else {
            lemma_field_split_at_first_colon(line);
            match split_field(line) {
                None => {},
                Some((name, value)) => {
                    lemma_field_names_hold_no_colon(s, line_next(s, i), stop_at_blank);
                    match fields_from(s, line_next(s, i), stop_at_blank) {
                        Some(rest) => {
                            lemma_trim_within(name);
                            let fs = seq![(trim(name), trim(value))] + rest;
                            assert forall|k: int, j: int| 0 <= k < fs.len() && 0 <= j < fs[k].0.len() implies #[trigger] fs[k].0[j] != ':' by {
                                if k == 0 {
                                    assert(fs[k].0 == trim(name));
                                    assert(trim(name)[j] == fs[k].0[j]);
                                } else {
                                    assert(fs[k] == rest[k - 1]);
                                }
                            }
                        },
                        None => {},
                    }
                },
            }
        }
    }
}

/// `char::is_whitespace`.
pub fn is_space_char(c: char) -> (r: bool)
    ensures
        r == is_space(c),
{
    let u = c as u32;
    (9 <= u && u <= 13) || u == 0x20 || u == 0x85 || u == 0xa0 || u == 0x1680 || (0x2000 <= u && u <= 0x200a)
        || u == 0x2028 || u == 0x2029 || u == 0x202f || u == 0x205f || u == 0x3000
}

/// The characters of a string slice, in order.
pub fn chars_of(s: &str) -> (v: Vec<char>)
    ensures
        v@ == s@,
{
    let mut v: Vec<char> = Vec::new();
    for c in it: s.chars()
        invariant
            v@ == it.seq().take(it.index() as int),
    {
        v.push(c);
    }
    v
}

/// `String::from_iter` over characters: a string holding exactly them.
#[verifier::external_body]
pub(crate) fn string_from_chars(cs: &[char]) -> (r: String)
    ensures
        r@ == cs@,
{
    cs.iter().collect()
}

/// The bounds of `s` without leading and trailing whitespace.
pub fn trim_bounds(s: &[char]) -> (r: (usize, usize))
    ensures
        r.0 <= r.1 <= s@.len(),
        s@.subrange(r.0 as int, r.1 as int) == trim(s@),
{
    let mut a: usize = 0;
    while a < s.len() && is_space_char(s[a])
        invariant
            a <= s@.len(),
            skip_space(s@, 0) == skip_space(s@, a as int),
        decreases s@.len() - a,
    {
        a = a + 1;
    }
    let mut b: usize = s.len();
    while a < b && is_space_char(s[b - 1])
        invariant
            a <= b <= s@.len(),
            trim_back(s@, a as int, s@.len() as int) == trim_back(s@, a as int, b as int),
        decreases b - a,
    {
        b = b - 1;
    }
    (a, b)
}

/// `s` trimmed, as a string.
pub fn trimmed_string(s: &[char]) -> (r: String)
    ensures
        r@ == trim(s@),
{
    let (a, b) = trim_bounds(s);
    let t = slice_subrange(s, a, b);
    string_from_chars(t)
}

/// `s` trimmed, as characters.
pub fn trimmed_chars(s: &[char]) -> (r: Vec<char>)
    ensures
        r@ == trim(s@),
{
    let (a, b) = trim_bounds(s);
    let t = slice_subrange(s, a, b);
    slice_to_vec(t)
}

/// `char::to_ascii_lowercase`.
pub fn ascii_lower_char(c: char) -> (r: char)
    ensures
        r == ascii_lower(c),
{
    if 'A' <= c && c <= 'Z' {
        let u = (c as u32) + 32;
        assert(65 + 32 <= u <= 90 + 32);
        char_from_ascii(u)
    } else {
        c
    }
}

/// The character of an ASCII code.
fn char_from_ascii(u: u32) -> (r: char)
    requires
        u < 128,
    ensures
        r == u as char,
{
    (u as u8) as char
}

/// `str::eq_ignore_ascii_case` on characters.
pub fn eq_ignore_case_chars(x: &[char], y: &[char]) -> (r: bool)
    ensures
        r == eq_ignore_case(x@, y@),
{
    if x.len() != y.len() {
        return false;
    }
    let mut i: usize = 0;
    while i < x.len()
        invariant
            x@.len() == y@.len(),
            i <= x@.len(),
            forall|j: int| 0 <= j < i ==> ascii_lower(#[trigger] x@[j]) == ascii_lower(y@[j]),
        decreases x@.len() - i,
    {
        if ascii_lower_char(x[i]) != ascii_lower_char(y[i]) {
            return false;
        }
        i = i + 1;
    }
    true
}

/// `str::eq_ignore_ascii_case` between a string and a word.
pub fn eq_ignore_case_str(x: &str, y: &str) -> (r: bool)
    ensures
        r == eq_ignore_case(x@, y@),
{
    let xs = chars_of(x);
    let ys = chars_of(y);
    eq_ignore_case_chars(xs.as_slice(), ys.as_slice())
}

/// The first index at or after `i` where `c` occurs.
pub fn find_char_from(s: &[char], c: char, i: usize) -> (r: Option<usize>)
    requires
        i <= s@.len(),
    ensures
        match r {
            Some(k) => find_char(s@, c, i as int) == k as int,
            None => find_char(s@, c, i as int) == -1,
        },
{
    let mut k = i;
    while k < s.len()
        invariant
            i <= k <= s@.len(),
            find_char(s@, c, i as int) == find_char(s@, c, k as int),
        decreases s@.len() - k,
    {
        if s[k] == c {
            return Some(k);
        }
        k = k + 1;
    }
    None
}

/// The first line break at or after `i`.
pub fn find_crlf_from(s: &[char], i: usize) -> (r: Option<usize>)
    requires
        i <= s@.len(),
    ensures
        match r {
            Some(k) => next_crlf(s@, i as int) == k as int,
            None => next_crlf(s@, i as int) == -1,
        },
{
    let mut k = i;
    while k < s.len() && s.len() - k > 1
        invariant
            i <= k <= s@.len(),
            next_crlf(s@, i as int) == next_crlf(s@, k as int),
        decreases s@.len() - k,
    {
        if s[k] == '\r' && s[k + 1] == '\n' {
            return Some(k);
        }
        k = k + 1;
    }
    None
}

/// Where the line that starts at `i` ends, and where the next line starts
/// when there is one.
pub fn line_bounds(s: &[char], i: usize) -> (r: (usize, Option<usize>))
    requires
        i <= s@.len(),
    ensures
        r.0 == line_end(s@, i as int),
        i <= r.0 <= s@.len(),
        match r.1 {
            Some(n) => n == line_next(s@, i as int) && r.0 < n <= s@.len(),
            None => line_next(s@, i as int) == s@.len() + 1 && r.0 == s@.len(),
        },
{
    proof {
        lemma_next_crlf(s@, i as int);
    }
    let n = s.len();
    match find_crlf_from(s, i) {
        Some(k) => {
            assert(k + 2 <= n);
            (k, Some(k + 2))
        },
        None => (s.len(), None),
    }
}

/// `split_whitespace` on a line: its first three tokens, empty when missing.
pub fn three_tokens_of(line: &[char]) -> (r: (String, String, String))
    ensures
        r.0@ == three_tokens(line@).0,
        r.1@ == three_tokens(line@).1,
        r.2@ == three_tokens(line@).2,
{
    let a1 = skip_space_from(line, 0);
    let b1 = skip_word_from(line, a1);
    let a2 = skip_space_from(line, b1);
    let b2 = skip_word_from(line, a2);
    let a3 = skip_space_from(line, b2);
    let b3 = skip_word_from(line, a3);
    (
        string_from_chars(slice_subrange(line, a1, b1)),
        string_from_chars(slice_subrange(line, a2, b2)),
        string_from_chars(slice_subrange(line, a3, b3)),
    )
}

/// The first index at or after `i` that is not whitespace.
fn skip_space_from(s: &[char], i: usize) -> (r: usize)
    requires
        i <= s@.len(),
    ensures
        r == skip_space(s@, i as int),
        i <= r <= s@.len(),
{
    let mut k = i;
    while k < s.len() && is_space_char(s[k])
        invariant
            i <= k <= s@.len(),
            skip_space(s@, i as int) == skip_space(s@, k as int),
        decreases s@.len() - k,
    {
        k = k + 1;
    }
    k
}

/// The first index at or after `i` that is whitespace.
fn skip_word_from(s: &[char], i: usize) -> (r: usize)
    requires
        i <= s@.len(),
    ensures
        r == skip_word(s@, i as int),
        i <= r <= s@.len(),
{
    let mut k = i;
    while k < s.len() && !is_space_char(s[k])
        invariant
            i <= k <= s@.len(),
            skip_word(s@, i as int) == skip_word(s@, k as int),
        decreases s@.len() - k,
    {
        k = k + 1;
    }
    k
}

/// The pieces of `s` between occurrences of `c`, each trimmed.
pub fn split_trimmed(s: &[char], c: char) -> (r: Vec<Vec<char>>)
    ensures
        r@.map_values(|x: Vec<char>| x@) == trimmed_pieces(s@, c),
{
    let mut out: Vec<Vec<char>> = Vec::new();
    let mut i: usize = 0;
    let ghost all = pieces_from(s@, c, 0).map_values(|p: Seq<char>| trim(p));
    assert(out@.map_values(|x: Vec<char>| x@) =~= Seq::<Seq<char>>::empty());
    assert(Seq::<Seq<char>>::empty() + all =~= all);
    loop
        invariant_except_break
            i <= s@.len(),
            all == pieces_from(s@, c, 0).map_values(|p: Seq<char>| trim(p)),
            out@.map_values(|x: Vec<char>| x@) + pieces_from(s@, c, i as int).map_values(|p: Seq<char>| trim(p)) == all,
        ensures
            out@.map_values(|x: Vec<char>| x@) == all,
        decreases s@.len() + 1 - i,
    {
        let ghost before = out@.map_values(|x: Vec<char>| x@);
        proof {
            lemma_find_char(s@, c, i as int);
        }
        let found = find_char_from(s, c, i);
        let end = match found {
            Some(k) => k,
            None => s.len(),
        };
        let piece = trimmed_chars(slice_subrange(s, i, end));
        out.push(piece);
        proof {
            let p = s@.subrange(i as int, end as int);
            let rest = pieces_from(s@, c, end + 1);
            assert(out@.map_values(|x: Vec<char>| x@) =~= before.push(trim(p)));
            assert(pieces_from(s@, c, i as int) =~= seq![p] + rest);
            assert((seq![p] + rest).map_values(|q: Seq<char>| trim(q)) =~= seq![trim(p)] + rest.map_values(|q: Seq<char>| trim(q)));
            assert(before + (seq![trim(p)] + rest.map_values(|q: Seq<char>| trim(q)))
                =~= before.push(trim(p)) + rest.map_values(|q: Seq<char>| trim(q)));
            if found is None {
                assert(rest.map_values(|q: Seq<char>| trim(q)) =~= Seq::<Seq<char>>::empty());
                assert(before.push(trim(p)) + Seq::<Seq<char>>::empty() =~= before.push(trim(p)));
            }
        }
        match found {
            Some(k) => {
                assert(k < s.len());
                i = k + 1;
            },
            None => {
                break;
            },
        }
    }
    out
}

/// Some comma-separated token of `s`, trimmed, equals `word` up to ASCII case.
pub fn has_token_of(s: &[char], word: &str) -> (r: bool)
    ensures
        r == has_token(s@, word@),
{
    let tokens = split_trimmed(s, ',');
    let w = chars_of(word);
    let ghost ts = trimmed_pieces(s@, ',');
    let mut i: usize = 0;
    while i < tokens.len()
        invariant
            i <= tokens@.len(),
            tokens@.map_values(|x: Vec<char>| x@) == ts,
            ts == trimmed_pieces(s@, ','),
            w@ == word@,
            forall|k: int| 0 <= k < i ==> !eq_ignore_case(#[trigger] ts[k], word@),
        decreases tokens@.len() - i,
    {
        assert(ts[i as int] == tokens@[i as int]@);
        if eq_ignore_case_chars(tokens[i].as_slice(), w.as_slice()) {
            return true;
        }
        i = i + 1;
    }
    false
}

/// The view of a header list: names and values as characters.
pub open spec fn fields_view(headers: Vec<(String, String)>) -> Seq<(Seq<char>, Seq<char>)> {
    headers@.map_values(|h: (String, String)| (h.0@, h.1@))
}

/// The index of the first header whose name equals `name` up to ASCII case.
pub fn find_field(headers: &Vec<(String, String)>, name: &str) -> (r: Option<usize>)
    ensures
        match r {
            Some(i) => i < headers@.len() && field_value(fields_view(*headers), name@) == Some(headers@[i as int].1@),
            None => field_value(fields_view(*headers), name@) is None,
        },
{
    let ghost hs = fields_view(*headers);
    let mut i: usize = 0;
    assert(hs.skip(0) =~= hs);
    while i < headers.len()
        invariant
            i <= headers@.len(),
            hs == fields_view(*headers),
            field_value(hs, name@) == field_value(hs.skip(i as int), name@),
        decreases headers@.len() - i,
    {
        assert(hs.skip(i as int)[0] == (headers@[i as int].0@, headers@[i as int].1@));
        if eq_ignore_case_str(headers[i].0.as_str(), name) {
            return Some(i);
        }
        assert(hs.skip(i as int).drop_first() =~= hs.skip(i + 1));
        i = i + 1;
    }
    assert(hs.skip(i as int).len() == 0);
    None
}

/// The list parse `all` once `done` has been read from its front.
pub open spec fn fields_after(
    done: Seq<(Seq<char>, Seq<char>)>,
    rest: Option<Seq<(Seq<char>, Seq<char>)>>,
) -> Option<Seq<(Seq<char>, Seq<char>)>> {
    match rest {
        Some(r) => Some(done + r),
        None => None,
    }
}

/// A line position: an index, or past the end.
pub open spec fn line_pos(s: Seq<char>, p: Option<usize>) -> int {
    match p {
        Some(i) => i as int,
        None => (s.len() + 1) as int,
    }
}

/// Reads the header fields of `s` from the line at `start` (past the end
/// when `None`), as [`fields_from`] describes.
pub fn parse_fields(s: &[char], start: Option<usize>, stop_at_blank: bool) -> (res: Result<Vec<(String, String)>>)
    requires
        start matches Some(i) ==> i <= s@.len(),
    ensures
        match fields_from(s@, line_pos(s@, start), stop_at_blank) {
            Some(fs) => res matches Ok(v) && fields_view(v) == fs,
            None => res matches Err(Error::Decode(_)),
        },
{
    let ghost first = line_pos(s@, start);
    let mut out: Vec<(String, String)> = Vec::new();
    let mut pos = start;
    assert(fields_view(out) =~= Seq::<(Seq<char>, Seq<char>)>::empty());
    loop
        invariant_except_break
            first == line_pos(s@, start),
            pos matches Some(i) ==> i <= s@.len(),
            fields_from(s@, first, stop_at_blank) == fields_after(
                fields_view(out),
                fields_from(s@, line_pos(s@, pos), stop_at_blank),
            ),
        ensures
            fields_from(s@, first, stop_at_blank) == Some(fields_view(out)),
        decreases s@.len() + 2 - line_pos(s@, pos),
    {
        let i = match pos {
            Some(i) => i,
            None => {
                assert(fields_view(out) + Seq::<(Seq<char>, Seq<char>)>::empty() =~= fields_view(out));
                break;
            },
        };
        let ghost done = fields_view(out);
        let (end, next) = line_bounds(s, i);
        if end == i {
            if stop_at_blank {
                assert(done + Seq::<(Seq<char>, Seq<char>)>::empty() =~= done);
                break;
            }
            pos = next;
            continue;
        }
        let line = slice_subrange(s, i, end);
        proof {
            lemma_find_char(line@, ':', 0);
        }
        let colon = match find_char_from(line, ':', 0) {
            Some(k) => k,
            None => {
                proof {
                    assert(split_field(line@) is None);
                    assert(fields_from(s@, i as int, stop_at_blank) is None);
                    assert(line_pos(s@, pos) == i as int);
                    assert(fields_from(s@, first, stop_at_blank) is None);
                }
                let text = string_from_chars(line);
                let prefix = if stop_at_blank {
                    "invalid websocket header: "
                } else {
                    "invalid http header: "
                };
                return Err(Error::Decode(message_with_text(prefix, text.as_str())));
            },
        };
        let name = trimmed_string(slice_subrange(line, 0, colon));
        let value = trimmed_string(slice_subrange(line, colon + 1, line.len()));
        proof {
            assert(line@.take(colon as int) =~= line@.subrange(0, colon as int));
            assert(line@.skip(colon + 1) =~= line@.subrange(colon + 1, line@.len() as int));
        }
        let ghost entry = (name@, value@);
        out.push((name, value));
        proof {
            assert(fields_view(out) =~= done.push(entry));
            match fields_from(s@, line_pos(s@, next), stop_at_blank) {
                Some(r) => assert(done + (seq![entry] + r) =~= done.push(entry) + r),
                None => {},
            }
        }
        pos = next;
    }
    Ok(out)
}

/// The characters of `s` start with those of `p`.
pub fn starts_with_str(s: &str, p: &str) -> (r: bool)
    ensures
        r == starts_with(s@, p@),
{
    let sc = chars_of(s);
    let pc = chars_of(p);
    if pc.len() > sc.len() {
        return false;
    }
    let mut i: usize = 0;
    while i < pc.len()
        invariant
            i <= pc@.len() <= sc@.len(),
            sc@ == s@,
            pc@ == p@,
            forall|j: int| 0 <= j < i ==> sc@[j] == pc@[j],
        decreases pc@.len() - i,
    {
        if sc[i] != pc[i] {
            proof {
                if starts_with(s@, p@) {
                    assert(sc@.take(pc@.len() as int)[i as int] == pc@[i as int]);
                }
            }
            return false;
        }
        i = i + 1;
    }
    assert(sc@.take(pc@.len() as int) =~= pc@);
    true
}

/// The value of a digit character for radixes up to 36 (`char::to_digit`),
/// or 99 for a character that is no digit.
pub open spec fn digit_of(c: char) -> nat {
    let u = c as u32;
    if 48 <= u <= 57 {
        (u - 48) as nat
    } else if 97 <= u <= 122 {
        (u - 87) as nat
    } else if 65 <= u <= 90 {
        (u - 55) as nat
    } else {
        99
    }
}

/// Every character of `d` is a digit in `radix`.
pub open spec fn digits_ok(d: Seq<char>, radix: nat) -> bool {
    forall|i: int| 0 <= i < d.len() ==> #[trigger] digit_of(d[i]) < radix
}

/// The number the digits `d` write in `radix`, most significant first.
pub open spec fn digits_value(d: Seq<char>, radix: nat) -> nat
    decreases d.len(),
{
    if d.len() == 0 {
        0
    } else {
        digits_value(d.drop_last(), radix) * radix + digit_of(d.last())
    }
}

/// `usize::from_str_radix`: an optional `+`, then at least one digit, for a
/// value that fits in `usize`.
pub open spec fn parse_uint(s: Seq<char>, radix: nat) -> Option<nat> {
    let d = if s.len() > 0 && s[0] == '+' {
        s.drop_first()
    } else {
        s
    };
    if d.len() == 0 || !digits_ok(d, radix) || digits_value(d, radix) > usize::MAX {
        None
    } else {
        Some(digits_value(d, radix))
    }
}

/// The decimal digits of `n` (`to_string` of an integer).
pub open spec fn decimal(n: nat) -> Seq<u8>
    decreases n,
{
    if n < 10 {
        seq![(48 + n) as u8]
    } else {
        decimal(n / 10).push((48 + n % 10) as u8)
    }
}

/// Header fields written as `name: value` lines, one after another.
pub open spec fn header_lines(headers: Seq<(Seq<char>, Seq<char>)>) -> Seq<u8>
    decreases headers.len(),
{
    if headers.len() == 0 {
        Seq::empty()
    } else {
        header_lines(headers.drop_last()) + encode_utf8(headers.last().0) + encode_utf8(": "@) + encode_utf8(
            headers.last().1,
        ) + encode_utf8("\r\n"@)
    }
}

/// Writes the decimal digits of `n`.
pub fn write_decimal(n: u64, dst: &mut bytes::BytesMut)
    ensures
        crate::buf::bytes_mut_view(*final(dst)) == crate::buf::bytes_mut_view(*old(dst)) + decimal(n as nat),
    decreases n,
{
    if n >= 10 {
        write_decimal(n / 10, dst);
    }
    let digit: [u8; 1] = [(48 + n % 10) as u8];
    let ghost before = crate::buf::bytes_mut_view(*dst);
    crate::buf::bytes_mut_extend(dst, digit.as_slice());
    assert(digit@ =~= seq![(48 + n % 10) as u8]);
    proof {
        if n < 10 {
            assert(decimal(n as nat) =~= seq![(48 + n) as u8]);
        }
    }
}

} // verus!
