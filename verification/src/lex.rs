//! Lexical building blocks of the Querydown grammar: whitespace and comments, identifiers, numbers,
//! quoted strings, dates, and fixed tokens. Every scanner works on a slice of characters and a
//! starting position, and its result is stated exactly by a spec function over the characters.
use vstd::prelude::*;

use crate::strings::{digit_value, is_digit, push_char, string_from_range};

verus! {

// ---------------------------------------------------------------------------------------------
// Character classes
// ---------------------------------------------------------------------------------------------

/// Unicode `White_Space` characters (what `char::is_whitespace` accepts).
pub open spec fn is_ws(c: char) -> bool {
    ||| c == ' '
    ||| ('\t' <= c && c <= '\r')
    ||| c == '\u{85}'
    ||| c == '\u{a0}'
    ||| c == '\u{1680}'
    ||| ('\u{2000}' <= c && c <= '\u{200a}')
    ||| c == '\u{2028}'
    ||| c == '\u{2029}'
    ||| c == '\u{202f}'
    ||| c == '\u{205f}'
    ||| c == '\u{3000}'
}

pub fn is_ws_exec(c: char) -> (r: bool)
    ensures
        r == is_ws(c),
{
    c == ' ' || ('\t' <= c && c <= '\r') || c == '\u{85}' || c == '\u{a0}' || c == '\u{1680}' || (
    '\u{2000}' <= c && c <= '\u{200a}') || c == '\u{2028}' || c == '\u{2029}' || c == '\u{202f}'
        || c == '\u{205f}' || c == '\u{3000}'
}

pub open spec fn is_alpha(c: char) -> bool {
    ('a' <= c && c <= 'z') || ('A' <= c && c <= 'Z')
}

pub open spec fn is_alnum(c: char) -> bool {
    is_alpha(c) || is_digit(c)
}

/// First character of an identifier: a letter or an underscore.
pub open spec fn is_ident_start(c: char) -> bool {
    is_alpha(c) || c == '_'
}

/// Later characters of an identifier: letters, digits and underscores.
pub open spec fn is_ident_continue(c: char) -> bool {
    is_alnum(c) || c == '_'
}

pub open spec fn is_hex(c: char) -> bool {
    is_digit(c) || ('a' <= c && c <= 'f') || ('A' <= c && c <= 'F')
}

pub fn is_digit_exec(c: char) -> (r: bool)
    ensures
        r == is_digit(c),
{
    '0' <= c && c <= '9'
}

pub fn is_alpha_exec(c: char) -> (r: bool)
    ensures
        r == is_alpha(c),
{
    ('a' <= c && c <= 'z') || ('A' <= c && c <= 'Z')
}

pub fn is_alnum_exec(c: char) -> (r: bool)
    ensures
        r == is_alnum(c),
{
    is_alpha_exec(c) || is_digit_exec(c)
}

pub fn is_ident_start_exec(c: char) -> (r: bool)
    ensures
        r == is_ident_start(c),
{
    is_alpha_exec(c) || c == '_'
}

pub fn is_ident_continue_exec(c: char) -> (r: bool)
    ensures
        r == is_ident_continue(c),
{
    is_alnum_exec(c) || c == '_'
}

/// The character at `i`, if any, equals `c`.
pub open spec fn at(s: Seq<char>, i: int, c: char) -> bool {
    0 <= i < s.len() && s[i] == c
}

pub fn at_exec(s: &[char], i: usize, c: char) -> (r: bool)
    ensures
        r == at(s@, i as int, c),
{
    i < s.len() && s[i] == c
}

/// The text `t` occurs in `s` at position `i`.
pub open spec fn starts_with(s: Seq<char>, i: int, t: Seq<char>) -> bool {
    0 <= i && i + t.len() <= s.len() && s.subrange(i, i + t.len()) == t
}

pub fn starts_with_exec(s: &[char], i: usize, t: &[char]) -> (r: bool)
    ensures
        r == starts_with(s@, i as int, t@),
{
    if i > s.len() || t.len() > s.len() - i {
        return false;
    }
    let mut k: usize = 0;
    while k < t.len()
        invariant
            i + t.len() <= s.len(),
            k <= t.len(),
            forall|j: int| 0 <= j < k ==> s@[i + j] == t@[j],
        decreases t.len() - k,
    {
        if s[i + k] != t[k] {
            assert(s@.subrange(i as int, i + t.len())[k as int] != t@[k as int]);
            return false;
        }
        k = k + 1;
    }
    assert(s@.subrange(i as int, i + t.len()) =~= t@);
    true
}

/// Two given characters occur at `i` and `i + 1`.
pub open spec fn at2(s: Seq<char>, i: int, a: char, b: char) -> bool {
    at(s, i, a) && at(s, i + 1, b)
}

pub fn at2_exec(s: &[char], i: usize, a: char, b: char) -> (r: bool)
    ensures
        r == at2(s@, i as int, a, b),
{
    if i < s.len() && s[i] == a {
        i + 1 < s.len() && s[i + 1] == b
    } else {
        false
    }
}

// ---------------------------------------------------------------------------------------------
// Runs of a character class
// ---------------------------------------------------------------------------------------------

/// The end of the run of digits starting at `i`.
pub open spec fn digits_end(s: Seq<char>, i: int) -> int
    decreases s.len() - i,
{
    if 0 <= i < s.len() && is_digit(s[i]) {
        digits_end(s, i + 1)
    } else {
        i
    }
}

/// The end of the run of identifier characters starting at `i`.
pub open spec fn ident_continue_end(s: Seq<char>, i: int) -> int
    decreases s.len() - i,
{
    if 0 <= i < s.len() && is_ident_continue(s[i]) {
        ident_continue_end(s, i + 1)
    } else {
        i
    }
}

/// The end of the run of ASCII letters and digits starting at `i`.
pub open spec fn alnum_end(s: Seq<char>, i: int) -> int
    decreases s.len() - i,
{
    if 0 <= i < s.len() && is_alnum(s[i]) {
        alnum_end(s, i + 1)
    } else {
        i
    }
}

/// The end of the line that position `i` is on: the next `\n` or the end of the text.
pub open spec fn line_end(s: Seq<char>, i: int) -> int
    decreases s.len() - i,
{
    if 0 <= i < s.len() && s[i] != '\n' {
        line_end(s, i + 1)
    } else {
        i
    }
}

pub proof fn lemma_digits_end(s: Seq<char>, i: int)
    requires
        0 <= i <= s.len(),
    ensures
        i <= digits_end(s, i) <= s.len(),
        forall|j: int| i <= j < digits_end(s, i) ==> is_digit(#[trigger] s[j]),
        digits_end(s, i) < s.len() ==> !is_digit(s[digits_end(s, i)]),
    decreases s.len() - i,
{
    if i < s.len() && is_digit(s[i]) {
        lemma_digits_end(s, i + 1);
    }
}

pub proof fn lemma_ident_continue_end(s: Seq<char>, i: int)
    requires
        0 <= i <= s.len(),
    ensures
        i <= ident_continue_end(s, i) <= s.len(),
    decreases s.len() - i,
{
    if i < s.len() && is_ident_continue(s[i]) {
        lemma_ident_continue_end(s, i + 1);
    }
}

pub proof fn lemma_alnum_end(s: Seq<char>, i: int)
    requires
        0 <= i <= s.len(),
    ensures
        i <= alnum_end(s, i) <= s.len(),
    decreases s.len() - i,
{
    if i < s.len() && is_alnum(s[i]) {
        lemma_alnum_end(s, i + 1);
    }
}

/// The end of the run of whitespace characters (not comments) starting at `i`.
pub open spec fn ws_end(s: Seq<char>, i: int) -> int
    decreases s.len() - i,
{
    if 0 <= i < s.len() && is_ws(s[i]) {
        ws_end(s, i + 1)
    } else {
        i
    }
}

pub proof fn lemma_line_end(s: Seq<char>, i: int)
    requires
        0 <= i <= s.len(),
    ensures
        i <= line_end(s, i) <= s.len(),
    decreases s.len() - i,
{
    if i < s.len() && s[i] != '\n' {
        lemma_line_end(s, i + 1);
    }
}

pub fn digits_end_exec(s: &[char], i: usize) -> (r: usize)
    requires
        i <= s.len(),
    ensures
        r == digits_end(s@, i as int),
{
    let mut j = i;
    while j < s.len() && is_digit_exec(s[j])
        invariant
            i <= j <= s.len(),
            digits_end(s@, i as int) == digits_end(s@, j as int),
        decreases s.len() - j,
    {
        j = j + 1;
    }
    j
}

pub fn ident_continue_end_exec(s: &[char], i: usize) -> (r: usize)
    requires
        i <= s.len(),
    ensures
        r == ident_continue_end(s@, i as int),
{
    let mut j = i;
    while j < s.len() && is_ident_continue_exec(s[j])
        invariant
            i <= j <= s.len(),
            ident_continue_end(s@, i as int) == ident_continue_end(s@, j as int),
        decreases s.len() - j,
    {
        j = j + 1;
    }
    j
}

pub fn alnum_end_exec(s: &[char], i: usize) -> (r: usize)
    requires
        i <= s.len(),
    ensures
        r == alnum_end(s@, i as int),
{
    let mut j = i;
    while j < s.len() && is_alnum_exec(s[j])
        invariant
            i <= j <= s.len(),
            alnum_end(s@, i as int) == alnum_end(s@, j as int),
        decreases s.len() - j,
    {
        j = j + 1;
    }
    j
}

// ---------------------------------------------------------------------------------------------
// Whitespace and comments
// ---------------------------------------------------------------------------------------------

/// Scanning the inside of a block comment at nesting `depth` (at least one) from position `i`:
/// the position just after the `*/` that closes the outermost comment, or `None` when the text
/// ends first. Block comments nest.
pub open spec fn block_comment_end(s: Seq<char>, i: int, depth: nat) -> Option<int>
    decreases s.len() - i,
{
    if i < 0 || i >= s.len() {
        None
    } else if at2(s, i, '*', '/') {
        if depth <= 1 {
            Some(i + 2)
        } else {
            block_comment_end(s, i + 2, (depth - 1) as nat)
        }
    } else if at2(s, i, '/', '*') {
        block_comment_end(s, i + 2, depth + 1)
    } else {
        block_comment_end(s, i + 1, depth)
    }
}

pub proof fn lemma_block_comment_end(s: Seq<char>, i: int, depth: nat)
    ensures
        block_comment_end(s, i, depth) matches Some(e) ==> i < e <= s.len(),
    decreases s.len() - i,
{
    if i < 0 || i >= s.len() {
    } else if at2(s, i, '*', '/') {
        if depth > 1 {
            lemma_block_comment_end(s, i + 2, (depth - 1) as nat);
        }
    } else if at2(s, i, '/', '*') {
        lemma_block_comment_end(s, i + 2, depth + 1);
    } else {
        lemma_block_comment_end(s, i + 1, depth);
    }
}

/// The end of the run of insignificant input (whitespace, `// line` comments and nestable
/// `/* block */` comments) starting at `i`. An unterminated block comment is not consumed.
pub open spec fn pad_end(s: Seq<char>, i: int) -> int
    decreases s.len() - i,
{
    if 0 <= i < s.len() && is_ws(s[i]) {
        pad_end(s, i + 1)
    } else if 0 <= i && at2(s, i, '/', '/') {
        proof {
            lemma_line_end(s, i + 2);
        }
        pad_end(s, line_end(s, i + 2))
    } else if 0 <= i && at2(s, i, '/', '*') && block_comment_end(s, i + 2, 1) is Some {
        proof {
            lemma_block_comment_end(s, i + 2, 1);
        }
        pad_end(s, block_comment_end(s, i + 2, 1).unwrap())
    } else {
        i
    }
}

pub proof fn lemma_pad_end(s: Seq<char>, i: int)
    requires
        0 <= i <= s.len(),
    ensures
        i <= pad_end(s, i) <= s.len(),
    decreases s.len() - i,
{
    if 0 <= i < s.len() && is_ws(s[i]) {
        lemma_pad_end(s, i + 1);
    } else if 0 <= i && at2(s, i, '/', '/') {
        lemma_line_end(s, i + 2);
        lemma_pad_end(s, line_end(s, i + 2));
    } else if 0 <= i && at2(s, i, '/', '*') && block_comment_end(s, i + 2, 1) is Some {
        lemma_block_comment_end(s, i + 2, 1);
        lemma_pad_end(s, block_comment_end(s, i + 2, 1).unwrap());
    }
}

/// Skipping insignificant input twice skips no more than once: where padding ends, none begins.
pub proof fn law_padding_is_idempotent(s: Seq<char>, i: int)
    requires
        0 <= i <= s.len(),
    ensures
        pad_end(s, pad_end(s, i)) == pad_end(s, i),
    decreases s.len() - i,
{
    if 0 <= i < s.len() && is_ws(s[i]) {
        law_padding_is_idempotent(s, i + 1);
    } else if 0 <= i && at2(s, i, '/', '/') {
        lemma_line_end(s, i + 2);
        law_padding_is_idempotent(s, line_end(s, i + 2));
    } else if 0 <= i && at2(s, i, '/', '*') && block_comment_end(s, i + 2, 1) is Some {
        lemma_block_comment_end(s, i + 2, 1);
        law_padding_is_idempotent(s, block_comment_end(s, i + 2, 1).unwrap());
    }
}

fn block_comment_end_exec(s: &[char], start: usize) -> (r: Option<usize>)
    requires
        start <= s.len(),
    ensures
        r matches Some(e) ==> block_comment_end(s@, start as int, 1) == Some(e as int),
        r is None ==> block_comment_end(s@, start as int, 1) is None,
{
    let mut i = start;
    let mut depth: usize = 1;
    while i < s.len()
        invariant
            start <= i <= s.len(),
            1 <= depth <= i - start + 1,
            block_comment_end(s@, start as int, 1) == block_comment_end(s@, i as int, depth as nat),
        decreases s.len() - i,
    {
        if at2_exec(s, i, '*', '/') {
            if depth <= 1 {
                return Some(i + 2);
            }
            depth = depth - 1;
            i = i + 2;
        } else if at2_exec(s, i, '/', '*') {
            depth = depth + 1;
            i = i + 2;
        } else {
            i = i + 1;
        }
    }
    None
}

/// Skips whitespace and comments starting at `i`.
pub fn pad(s: &[char], i: usize) -> (r: usize)
    requires
        i <= s.len(),
    ensures
        r == pad_end(s@, i as int),
        i <= r <= s.len(),
{
    let mut j = i;
    proof {
        lemma_pad_end(s@, i as int);
    }
    loop
        invariant
            i <= j <= s.len(),
            pad_end(s@, i as int) == pad_end(s@, j as int),
        decreases s.len() - j,
    {
        if j < s.len() && is_ws_exec(s[j]) {
            j = j + 1;
        } else if at2_exec(s, j, '/', '/') {
            let mut k = j + 2;
            while k < s.len() && s[k] != '\n'
                invariant
                    j + 2 <= k <= s.len(),
                    line_end(s@, j + 2) == line_end(s@, k as int),
                decreases s.len() - k,
            {
                k = k + 1;
            }
            j = k;
        } else if at2_exec(s, j, '/', '*') {
            match block_comment_end_exec(s, j + 2) {
                Some(e) => {
                    proof {
                        lemma_block_comment_end(s@, j + 2, 1);
                    }
                    j = e;
                },
                None => {
                    return j;
                },
            }
        } else {
            return j;
        }
    }
}

// ---------------------------------------------------------------------------------------------
// Identifiers and numbers
// ---------------------------------------------------------------------------------------------

/// An identifier at `i`: a letter or underscore followed by letters, digits and underscores.
/// Returns its end.
pub open spec fn ident_at(s: Seq<char>, i: int) -> Option<int> {
    if 0 <= i < s.len() && is_ident_start(s[i]) {
        Some(ident_continue_end(s, i + 1))
    } else {
        None
    }
}

pub fn ident_at_exec(s: &[char], i: usize) -> (r: Option<usize>)
    requires
        i <= s.len(),
    ensures
        r matches Some(e) ==> ident_at(s@, i as int) == Some(e as int) && i < e <= s.len(),
        r is None ==> ident_at(s@, i as int) is None,
{
    if i < s.len() && is_ident_start_exec(s[i]) {
        proof {
            lemma_ident_continue_end(s@, i + 1);
        }
        Some(ident_continue_end_exec(s, i + 1))
    } else {
        None
    }
}

/// A variable `@name` at `i`: the end of the name.
pub open spec fn variable_at(s: Seq<char>, i: int) -> Option<int> {
    if at(s, i, '@') {
        ident_at(s, i + 1)
    } else {
        None
    }
}

/// An identifier at `i`, as a string together with its end.
pub fn ident(s: &[char], i: usize) -> (r: Option<(String, usize)>)
    requires
        i <= s.len(),
    ensures
        r matches Some((t, e)) ==> ident_at(s@, i as int) == Some(e as int) && i < e <= s.len()
            && t@ == s@.subrange(i as int, e as int),
        r is None ==> ident_at(s@, i as int) is None,
{
    match ident_at_exec(s, i) {
        Some(e) => Some((string_from_range(s, i, e), e)),
        None => None,
    }
}

/// A non-negative integer at `i`: `0`, or a non-zero digit followed by digits. Returns its end.
pub open spec fn int_at(s: Seq<char>, i: int) -> Option<int> {
    if at(s, i, '0') {
        Some(i + 1)
    } else if 0 <= i < s.len() && is_digit(s[i]) {
        Some(digits_end(s, i + 1))
    } else {
        None
    }
}

/// An optional fraction at `i`: `.` followed by at least one digit. Returns the end of the
/// fraction, or `i` when there is none.
pub open spec fn fraction_end(s: Seq<char>, i: int) -> int {
    if at(s, i, '.') && 0 <= i + 1 < s.len() && is_digit(s[i + 1]) {
        digits_end(s, i + 2)
    } else {
        i
    }
}

/// A number literal at `i`: an optional `-`, an integer, and an optional fraction.
pub open spec fn number_at(s: Seq<char>, i: int) -> Option<int> {
    let start = if at(s, i, '-') {
        i + 1
    } else {
        i
    };
    match int_at(s, start) {
        Some(e) => Some(fraction_end(s, e)),
        None => None,
    }
}

pub fn int_at_exec(s: &[char], i: usize) -> (r: Option<usize>)
    requires
        i <= s.len(),
    ensures
        r matches Some(e) ==> int_at(s@, i as int) == Some(e as int) && i < e <= s.len(),
        r is None ==> int_at(s@, i as int) is None,
{
    if at_exec(s, i, '0') {
        Some(i + 1)
    } else if i < s.len() && is_digit_exec(s[i]) {
        proof {
            lemma_digits_end(s@, i + 1);
        }
        Some(digits_end_exec(s, i + 1))
    } else {
        None
    }
}

pub fn fraction_end_exec(s: &[char], i: usize) -> (r: usize)
    requires
        i <= s.len(),
    ensures
        r == fraction_end(s@, i as int),
        i <= r <= s.len(),
{
    if at_exec(s, i, '.') && i + 1 < s.len() && is_digit_exec(s[i + 1]) {
        proof {
            lemma_digits_end(s@, i + 2);
        }
        digits_end_exec(s, i + 2)
    } else {
        i
    }
}

/// A number literal at `i`, as its exact text together with its end.
pub fn number(s: &[char], i: usize) -> (r: Option<(String, usize)>)
    requires
        i <= s.len(),
    ensures
        r matches Some((t, e)) ==> number_at(s@, i as int) == Some(e as int) && i < e <= s.len()
            && t@ == s@.subrange(i as int, e as int),
        r is None ==> number_at(s@, i as int) is None,
{
    let start = if at_exec(s, i, '-') {
        i + 1
    } else {
        i
    };
    match int_at_exec(s, start) {
        Some(e) => {
            let f = fraction_end_exec(s, e);
            Some((string_from_range(s, i, f), f))
        },
        None => None,
    }
}

/// The value of the decimal digits `s[i..j]`.
pub open spec fn digits_value(s: Seq<char>, i: int, j: int) -> nat
    decreases j - i,
{
    if j <= i {
        0
    } else {
        digits_value(s, i, j - 1) * 10 + digit_value(s[j - 1])
    }
}

pub fn digit_value_exec(c: char) -> (r: u32)
    ensures
        r == digit_value(c),
        r < 10,
{
    if c == '1' {
        1
    } else if c == '2' {
        2
    } else if c == '3' {
        3
    } else if c == '4' {
        4
    } else if c == '5' {
        5
    } else if c == '6' {
        6
    } else if c == '7' {
        7
    } else if c == '8' {
        8
    } else if c == '9' {
        9
    } else {
        0
    }
}

/// Exactly `n` digits at `i`.
pub open spec fn digits_exactly(s: Seq<char>, i: int, n: int) -> bool {
    0 <= i && i + n <= s.len() && forall|j: int| i <= j < i + n ==> is_digit(#[trigger] s[j])
}

/// Reads exactly `n` (at most four) digits at `i`, returning their value.
pub fn digits_exactly_exec(s: &[char], i: usize, n: usize) -> (r: Option<u32>)
    requires
        i <= s.len(),
        n <= 4,
    ensures
        r matches Some(v) ==> digits_exactly(s@, i as int, n as int) && v == digits_value(
            s@,
            i as int,
            i + n,
        ),
        r is None ==> !digits_exactly(s@, i as int, n as int),
{
    if n > s.len() - i {
        return None;
    }
    let mut v: u32 = 0;
    let mut k: usize = 0;
    while k < n
        invariant
            i + n <= s.len(),
            n <= 4,
            k <= n,
            forall|j: int| i <= j < i + k ==> is_digit(#[trigger] s@[j]),
            v == digits_value(s@, i as int, i + k),
            v < 10000,
            k == 0 ==> v == 0,
            k == 1 ==> v < 10,
            k == 2 ==> v < 100,
            k == 3 ==> v < 1000,
        decreases n - k,
    {
        if !is_digit_exec(s[i + k]) {
            return None;
        }
        v = v * 10 + digit_value_exec(s[i + k]);
        k = k + 1;
    }
    Some(v)
}

// ---------------------------------------------------------------------------------------------
// Quoted strings
// ---------------------------------------------------------------------------------------------

/// Four hexadecimal digits at `i`, and their value.
pub open spec fn hex_value(c: char) -> nat {
    if is_digit(c) {
        digit_value(c)
    } else if c == 'a' || c == 'A' {
        10
    } else if c == 'b' || c == 'B' {
        11
    } else if c == 'c' || c == 'C' {
        12
    } else if c == 'd' || c == 'D' {
        13
    } else if c == 'e' || c == 'E' {
        14
    } else {
        15
    }
}

pub open spec fn hex4(s: Seq<char>, i: int) -> Option<nat> {
    if 0 <= i && i + 4 <= s.len() && is_hex(s[i]) && is_hex(s[i + 1]) && is_hex(s[i + 2])
        && is_hex(s[i + 3]) {
        Some(
            ((hex_value(s[i]) * 16 + hex_value(s[i + 1])) * 16 + hex_value(s[i + 2])) * 16
                + hex_value(s[i + 3]),
        )
    } else {
        None
    }
}

/// Whether a code point below `0x10000` is a character (that is, not a surrogate).
pub open spec fn is_scalar_below_10000(v: nat) -> bool {
    v < 0xD800 || (0xE000 <= v && v < 0x10000)
}

/// An escape sequence at `i` (which holds `\`) inside text quoted by `q`: the character it
/// stands for and the end of the sequence.
pub open spec fn escape_at(s: Seq<char>, i: int, q: char) -> Option<(char, int)> {
    if !at(s, i, '\\') || !(0 <= i + 1 < s.len()) {
        None
    } else {
        let c = s[i + 1];
        if c == '\\' {
            Some(('\\', i + 2))
        } else if c == '/' {
            Some(('/', i + 2))
        } else if c == q {
            Some((q, i + 2))
        } else if c == 'b' {
            Some(('\x08', i + 2))
        } else if c == 'f' {
            Some(('\x0C', i + 2))
        } else if c == 'n' {
            Some(('\n', i + 2))
        } else if c == 'r' {
            Some(('\r', i + 2))
        } else if c == 't' {
            Some(('\t', i + 2))
        } else if c == 'u' && hex4(s, i + 2) is Some && is_scalar_below_10000(
            hex4(s, i + 2).unwrap(),
        ) {
            Some((hex4(s, i + 2).unwrap() as char, i + 6))
        } else {
            None
        }
    }
}

/// The body of a quoted text starting at `i` (just after the opening quote `q`): the characters
/// it stands for and the position just after the closing quote. Any character but `\` and `q`
/// stands for itself; `\` starts an escape sequence.
pub open spec fn quoted_body(s: Seq<char>, i: int, q: char) -> Option<(Seq<char>, int)>
    decreases s.len() - i,
{
    if i < 0 || i >= s.len() {
        None
    } else if s[i] == q {
        Some((Seq::empty(), i + 1))
    } else if s[i] == '\\' {
        match escape_at(s, i, q) {
            Some((c, j)) => match quoted_body(s, j, q) {
                Some((rest, e)) => Some((seq![c] + rest, e)),
                None => None,
            },
            None => None,
        }
    } else {
        match quoted_body(s, i + 1, q) {
            Some((rest, e)) => Some((seq![s[i]] + rest, e)),
            None => None,
        }
    }
}

/// Text quoted by `q` at `i`: the characters it stands for, and its end.
pub open spec fn quoted_at(s: Seq<char>, i: int, q: char) -> Option<(Seq<char>, int)> {
    if at(s, i, q) {
        quoted_body(s, i + 1, q)
    } else {
        None
    }
}

pub proof fn lemma_quoted_body(s: Seq<char>, i: int, q: char)
    ensures
        quoted_body(s, i, q) matches Some((_, e)) ==> i < e <= s.len(),
    decreases s.len() - i,
{
    if i < 0 || i >= s.len() {
    } else if s[i] == q {
    } else if s[i] == '\\' {
        if let Some((c, j)) = escape_at(s, i, q) {
            lemma_quoted_body(s, j, q);
        }
    } else {
        lemma_quoted_body(s, i + 1, q);
    }
}

fn hex_value_exec(c: char) -> (r: u32)
    ensures
        r == hex_value(c),
        r < 16,
{
    if is_digit_exec(c) {
        digit_value_exec(c)
    } else if c == 'a' || c == 'A' {
        10
    } else if c == 'b' || c == 'B' {
        11
    } else if c == 'c' || c == 'C' {
        12
    } else if c == 'd' || c == 'D' {
        13
    } else if c == 'e' || c == 'E' {
        14
    } else {
        15
    }
}

fn is_hex_exec(c: char) -> (r: bool)
    ensures
        r == is_hex(c),
{
    is_digit_exec(c) || ('a' <= c && c <= 'f') || ('A' <= c && c <= 'F')
}

/// The character with a given code point, via std's `char::from_u32`: `Some` exactly for code
/// points that are characters (at most `0x10FFFF` and not a surrogate), holding that character.
#[verifier::external_body]
fn char_from_u32(v: u32) -> (r: Option<char>)
    ensures
        r is Some <==> (v <= 0x10FFFF && !(0xD800 <= v <= 0xDFFF)),
        r matches Some(c) ==> c == v as char,
{
    char::from_u32(v)
}

fn escape_exec(s: &[char], i: usize, q: char) -> (r: Option<(char, usize)>)
    requires
        i <= s.len(),
    ensures
        r matches Some((c, e)) ==> escape_at(s@, i as int, q) == Some((c, e as int)),
        r is None ==> escape_at(s@, i as int, q) is None,
{
    if !at_exec(s, i, '\\') || i + 1 >= s.len() {
        return None;
    }
    let c = s[i + 1];
    if c == '\\' {
        Some(('\\', i + 2))
    } else if c == '/' {
        Some(('/', i + 2))
    } else if c == q {
        Some((q, i + 2))
    } else if c == 'b' {
        Some(('\x08', i + 2))
    } else if c == 'f' {
        Some(('\x0C', i + 2))
    } else if c == 'n' {
        Some(('\n', i + 2))
    } else if c == 'r' {
        Some(('\r', i + 2))
    } else if c == 't' {
        Some(('\t', i + 2))
    } else if c == 'u' {
        if s.len() - i < 6 {
            return None;
        }
        let (a, b, d, e) = (s[i + 2], s[i + 3], s[i + 4], s[i + 5]);
        if !(is_hex_exec(a) && is_hex_exec(b) && is_hex_exec(d) && is_hex_exec(e)) {
            return None;
        }
        let v = ((hex_value_exec(a) * 16 + hex_value_exec(b)) * 16 + hex_value_exec(d)) * 16
            + hex_value_exec(e);
        if v >= 0xD800 && v < 0xE000 {
            return None;
        }
        match char_from_u32(v) {
            Some(ch) => Some((ch, i + 6)),
            None => None,
        }
    } else {
        None
    }
}

/// Text quoted by `q` at `i`, with escape sequences resolved, together with its end.
pub fn quoted(s: &[char], i: usize, q: char) -> (r: Option<(String, usize)>)
    requires
        i <= s.len(),
    ensures
        r matches Some((t, e)) ==> quoted_at(s@, i as int, q) == Some((t@, e as int)) && i < e
            <= s.len(),
        r is None ==> quoted_at(s@, i as int, q) is None,
{
    if !at_exec(s, i, q) {
        return None;
    }
    let mut text = String::new();
    let mut j = i + 1;
    // Each step either closes the quote, resolves an escape, or takes a character as it is; the
    // text gathered so far followed by what the rest stands for is what the whole stands for.
    loop
        invariant
            i < j <= s.len(),
            quoted_at(s@, i as int, q) == match quoted_body(s@, j as int, q) {
                Some((rest, e)) => Some((text@ + rest, e)),
                None => None,
            },
        decreases s.len() - j,
    {
        if j >= s.len() {
            return None;
        }
        let c = s[j];
        if c == q {
            proof {
                assert(text@ + Seq::<char>::empty() =~= text@);
            }
            return Some((text, j + 1));
        } else if c == '\\' {
            match escape_exec(s, j, q) {
                Some((ch, k)) => {
                    proof {
                        let ghost old_text = text@;
                        match quoted_body(s@, k as int, q) {
                            Some((rest, e)) => {
                                assert(old_text + (seq![ch] + rest) =~= old_text.push(ch) + rest);
                            },
                            None => {},
                        }
                    }
                    push_char(&mut text, ch);
                    j = k;
                },
                None => {
                    return None;
                },
            }
        } else {
            proof {
                match quoted_body(s@, j + 1, q) {
                    Some((rest, e)) => {
                        assert(text@ + (seq![c] + rest) =~= text@.push(c) + rest);
                    },
                    None => {},
                }
            }
            push_char(&mut text, c);
            j = j + 1;
        }
    }
}

/// A database identifier at `i`: a plain identifier, or any text quoted with backticks.
pub open spec fn db_identifier_at(s: Seq<char>, i: int) -> Option<(Seq<char>, int)> {
    match ident_at(s, i) {
        Some(e) => Some((s.subrange(i, e), e)),
        None => quoted_at(s, i, '`'),
    }
}

pub fn db_identifier(s: &[char], i: usize) -> (r: Option<(String, usize)>)
    requires
        i <= s.len(),
    ensures
        r matches Some((t, e)) ==> db_identifier_at(s@, i as int) == Some((t@, e as int)) && i
            < e <= s.len(),
        r is None ==> db_identifier_at(s@, i as int) is None,
{
    match ident(s, i) {
        Some(r) => Some(r),
        None => quoted(s, i, '`'),
    }
}

} // verus!
