//! The grammar of the search response.
//!
//! The search endpoint answers with a JSON array of objects, each of which
//! must hold a `url` member whose value is a string; other members may hold
//! any JSON value and are skipped.  This module states that grammar as
//! recursive specification functions over byte sequences and implements an
//! executable recursive-descent parser proved to return exactly what the
//! grammar says.
//!
//! Positions are byte indices.  Every parsing function takes the position at
//! which its production starts and yields the position just past it, `None`
//! standing for a malformed input.

use vstd::prelude::*;

verus! {

pub const QUOTE: u8 = 0x22;
pub const BACKSLASH: u8 = 0x5c;
pub const LBRACE: u8 = 0x7b;
pub const RBRACE: u8 = 0x7d;
pub const LBRACKET: u8 = 0x5b;
pub const RBRACKET: u8 = 0x5d;
pub const COLON: u8 = 0x3a;
pub const COMMA: u8 = 0x2c;
pub const MINUS: u8 = 0x2d;
pub const PLUS: u8 = 0x2b;
pub const DOT: u8 = 0x2e;

/// The insignificant whitespace bytes: space, tab, line feed, carriage return.
pub open spec fn is_ws(b: u8) -> bool {
    b == 0x20 || b == 0x09 || b == 0x0a || b == 0x0d
}

pub open spec fn is_digit(b: u8) -> bool {
    0x30 <= b <= 0x39
}

/// The first position at or after `i` that does not hold whitespace.
pub open spec fn skip_ws(s: Seq<u8>, i: int) -> int
    decreases s.len() - i,
{
    if 0 <= i && i < s.len() && is_ws(s[i]) {
        skip_ws(s, i + 1)
    } else {
        i
    }
}

/// Clamps a parse position from below.  The parsers only ever hand on
/// positions past the text they consumed, so on every reachable value this
/// is the identity; writing it out keeps the termination measures linear.
pub open spec fn at_least(e: int, lo: int) -> int {
    if e < lo {
        lo
    } else {
        e
    }
}

/// What a single-character escape stands for: the mapped byte, or `None`
/// where the character may not follow a backslash.
pub open spec fn esc_byte(b: u8) -> Option<u8> {
    if b == QUOTE {
        Some(QUOTE)
    } else if b == BACKSLASH {
        Some(BACKSLASH)
    } else if b == 0x2f {  // solidus
        Some(0x2f)
    } else if b == 0x62 {  // b: backspace
        Some(0x08)
    } else if b == 0x66 {  // f: form feed
        Some(0x0c)
    } else if b == 0x6e {  // n: line feed
        Some(0x0a)
    } else if b == 0x72 {  // r: carriage return
        Some(0x0d)
    } else if b == 0x74 {  // t: tab
        Some(0x09)
    } else {
        None
    }
}

/// The value of one hexadecimal digit.
pub open spec fn hex_val(b: u8) -> Option<u8> {
    if 0x30 <= b <= 0x39 {
        Some((b - 0x30) as u8)
    } else if 0x41 <= b <= 0x46 {
        Some((b - 0x37) as u8)
    } else if 0x61 <= b <= 0x66 {
        Some((b - 0x57) as u8)
    } else {
        None
    }
}

/// The value of the four hexadecimal digits at `i`, as in a `\u` escape.
pub open spec fn hex4(s: Seq<u8>, i: int) -> Option<int> {
    if 0 <= i && i + 4 <= s.len() {
        match (hex_val(s[i]), hex_val(s[i + 1]), hex_val(s[i + 2]), hex_val(s[i + 3])) {
            (Some(a), Some(b), Some(c), Some(d)) => Some(
                a * 0x1000 + b * 0x100 + c * 0x10 + d,
            ),
            _ => None,
        }
    } else {
        None
    }
}

/// The UTF-8 encoding of the code point `c`.
pub open spec fn utf8_enc(c: int) -> Seq<u8> {
    if c < 0x80 {
        seq![c as u8]
    } else if c < 0x800 {
        seq![(0xc0 + c / 0x40) as u8, (0x80 + c % 0x40) as u8]
    } else if c < 0x10000 {
        seq![
            (0xe0 + c / 0x1000) as u8,
            (0x80 + (c / 0x40) % 0x40) as u8,
            (0x80 + c % 0x40) as u8,
        ]
    } else {
        seq![
            (0xf0 + c / 0x40000) as u8,
            (0x80 + (c / 0x1000) % 0x40) as u8,
            (0x80 + (c / 0x40) % 0x40) as u8,
            (0x80 + c % 0x40) as u8,
        ]
    }
}

/// A UTF-8 continuation byte.
pub open spec fn is_cont(b: u8) -> bool {
    0x80 <= b < 0xc0
}

/// The length of the well-formed UTF-8 sequence starting at `i`, or `None`
/// where the bytes at `i` start no well-formed sequence.
pub open spec fn utf8_len(s: Seq<u8>, i: int) -> Option<int> {
    if !(0 <= i < s.len()) {
        None
    } else {
        let b = s[i];
        if b < 0x80 {
            Some(1)
        } else if 0xc2 <= b <= 0xdf {
            if i + 2 <= s.len() && is_cont(s[i + 1]) {
                Some(2)
            } else {
                None
            }
        } else if b == 0xe0 {
            if i + 3 <= s.len() && 0xa0 <= s[i + 1] < 0xc0 && is_cont(s[i + 2]) {
                Some(3)
            } else {
                None
            }
        } else if b == 0xed {
            if i + 3 <= s.len() && 0x80 <= s[i + 1] < 0xa0 && is_cont(s[i + 2]) {
                Some(3)
            } else {
                None
            }
        } else if 0xe1 <= b <= 0xef {
            // 0xe0 and 0xed were handled above
            if i + 3 <= s.len() && is_cont(s[i + 1]) && is_cont(s[i + 2]) {
                Some(3)
            } else {
                None
            }
        } else if b == 0xf0 {
            if i + 4 <= s.len() && 0x90 <= s[i + 1] < 0xc0 && is_cont(s[i + 2]) && is_cont(
                s[i + 3],
            ) {
                Some(4)
            } else {
                None
            }
        } else if 0xf1 <= b <= 0xf3 {
            if i + 4 <= s.len() && is_cont(s[i + 1]) && is_cont(s[i + 2]) && is_cont(s[i + 3]) {
                Some(4)
            } else {
                None
            }
        } else if b == 0xf4 {
            if i + 4 <= s.len() && 0x80 <= s[i + 1] < 0x90 && is_cont(s[i + 2]) && is_cont(
                s[i + 3],
            ) {
                Some(4)
            } else {
                None
            }
        } else {
            None
        }
    }
}

/// The content of a string literal whose opening quote stands just before
/// `i`: the unescaped bytes, and the position just past the closing quote.
pub open spec fn str_body(s: Seq<u8>, i: int) -> Option<(Seq<u8>, int)>
    decreases s.len() - i,
{
    if !(0 <= i < s.len()) {
        None
    } else {
        let b = s[i];
        if b == QUOTE {
            Some((Seq::empty(), i + 1))
        } else if b == BACKSLASH {
            if i + 2 <= s.len() {
                let e = s[i + 1];
                if e == 0x75 {  // u: a four-digit escape
                    match hex4(s, i + 2) {
                        Some(c1) => {
                            if 0xd800 <= c1 < 0xdc00 {
                                // a high surrogate: the paired low surrogate must follow
                                if i + 8 <= s.len() && s[i + 6] == BACKSLASH && s[i + 7] == 0x75 {
                                    match hex4(s, i + 8) {
                                        Some(c2) => {
                                            if 0xdc00 <= c2 < 0xe000 {
                                                match str_body(s, i + 12) {
                                                    Some(p) => Some(
                                                        (
                                                            utf8_enc(
                                                                0x10000 + (c1 - 0xd800) * 0x400 + (
                                                                c2 - 0xdc00),
                                                            ) + p.0,
                                                            p.1,
                                                        ),
                                                    ),
                                                    None => None,
                                                }
                                            } else {
                                                None
                                            }
                                        },
                                        None => None,
                                    }
                                } else {
                                    None
                                }
                            } else if 0xdc00 <= c1 < 0xe000 {
                                // an unpaired low surrogate
                                None
                            } else {
                                match str_body(s, i + 6) {
                                    Some(p) => Some((utf8_enc(c1) + p.0, p.1)),
                                    None => None,
                                }
                            }
                        },
                        None => None,
                    }
                } else {
                    match esc_byte(e) {
                        Some(m) => match str_body(s, i + 2) {
                            Some(p) => Some((seq![m] + p.0, p.1)),
                            None => None,
                        },
                        None => None,
                    }
                }
            } else {
                None
            }
        } else if b < 0x20 {
            // an unescaped control character
            None
        } else {
            match utf8_len(s, i) {
                Some(n) => match str_body(s, i + n) {
                    Some(p) => Some((s.subrange(i, i + n) + p.0, p.1)),
                    None => None,
                },
                None => None,
            }
        }
    }
}

/// The first position at or after `i` that holds no decimal digit.
pub open spec fn digits_end(s: Seq<u8>, i: int) -> int
    decreases s.len() - i,
{
    if 0 <= i && i < s.len() && is_digit(s[i]) {
        digits_end(s, i + 1)
    } else {
        i
    }
}

/// The end of the integer part of a number starting at `i`: an optional
/// minus sign, then either a single zero or a nonzero digit followed by
/// more digits.
pub open spec fn int_end(s: Seq<u8>, i: int) -> Option<int> {
    let j = if 0 <= i && i < s.len() && s[i] == MINUS {
        i + 1
    } else {
        i
    };
    if 0 <= j && j < s.len() && is_digit(s[j]) {
        if s[j] == 0x30 {
            Some(j + 1)
        } else {
            Some(at_least(digits_end(s, j), j + 1))
        }
    } else {
        None
    }
}

/// The end of the optional fraction part starting at `k`.
pub open spec fn frac_end(s: Seq<u8>, k: int) -> Option<int> {
    if 0 <= k && k < s.len() && s[k] == DOT {
        if k + 1 < s.len() && is_digit(s[k + 1]) {
            Some(at_least(digits_end(s, k + 1), k + 2))
        } else {
            None
        }
    } else {
        Some(k)
    }
}

/// The end of the optional exponent part starting at `k`.
pub open spec fn exp_end(s: Seq<u8>, k: int) -> Option<int> {
    if 0 <= k && k < s.len() && (s[k] == 0x65 || s[k] == 0x45) {  // e or E
        let j = if k + 1 < s.len() && (s[k + 1] == PLUS || s[k + 1] == MINUS) {
            k + 2
        } else {
            k + 1
        };
        if j < s.len() && is_digit(s[j]) {
            Some(at_least(digits_end(s, j), j + 1))
        } else {
            None
        }
    } else {
        Some(k)
    }
}

/// The end of the number starting at `i`, or `None` where no well-formed
/// number starts there.
pub open spec fn number_end(s: Seq<u8>, i: int) -> Option<int> {
    match int_end(s, i) {
        Some(k) => match frac_end(s, k) {
            Some(k2) => exp_end(s, k2),
            None => None,
        },
        None => None,
    }
}

/// The position just past the JSON value starting at `i`, or `None` where
/// no well-formed value starts there.
pub open spec fn end_of_value(s: Seq<u8>, i: int) -> Option<int>
    decreases s.len() - i, 0int,
{
    if !(0 <= i < s.len()) {
        None
    } else {
        let b = s[i];
        if b == QUOTE {
            match str_body(s, i + 1) {
                Some(p) => Some(p.1),
                None => None,
            }
        } else if b == LBRACE {
            members_end(s, i + 1, true)
        } else if b == LBRACKET {
            items_end(s, i + 1, true)
        } else if b == 0x74 {  // t
            if i + 4 <= s.len() && s[i + 1] == 0x72 && s[i + 2] == 0x75 && s[i + 3] == 0x65 {
                Some(i + 4)
            } else {
                None
            }
        } else if b == 0x66 {  // f
            if i + 5 <= s.len() && s[i + 1] == 0x61 && s[i + 2] == 0x6c && s[i + 3] == 0x73 && s[
                i + 4] == 0x65 {
                Some(i + 5)
            } else {
                None
            }
        } else if b == 0x6e {  // n
            if i + 4 <= s.len() && s[i + 1] == 0x75 && s[i + 2] == 0x6c && s[i + 3] == 0x6c {
                Some(i + 4)
            } else {
                None
            }
        } else if b == MINUS || is_digit(b) {
            number_end(s, i)
        } else {
            None
        }
    }
}

/// The position just past the remaining members of an object whose opening
/// brace (`first`) or separating comma (`!first`) stands just before `i`.
pub open spec fn members_end(s: Seq<u8>, i: int, first: bool) -> Option<int>
    decreases s.len() - i, 1int,
{
    if !(0 <= i <= s.len()) {
        None
    } else {
        let j = at_least(skip_ws(s, i), i);
        if j < s.len() && first && s[j] == RBRACE {
            Some(j + 1)
        } else if j < s.len() && s[j] == QUOTE {
            match str_body(s, j + 1) {
                Some(key) => {
                    let e = at_least(key.1, j + 2);
                    let k = at_least(skip_ws(s, e), e);
                    if k < s.len() && s[k] == COLON {
                        let m = at_least(skip_ws(s, k + 1), k + 1);
                        if m > s.len() {
                            None
                        } else {
                        match end_of_value(s, m) {
                            Some(e2_raw) => {
                                let e2 = at_least(e2_raw, m + 1);
                                let p = at_least(skip_ws(s, e2), e2);
                                if p < s.len() && s[p] == COMMA {
                                    members_end(s, p + 1, false)
                                } else if p < s.len() && s[p] == RBRACE {
                                    Some(p + 1)
                                } else {
                                    None
                                }
                            },
                            None => None,
                        }
                        }
                    } else {
                        None
                    }
                },
                None => None,
            }
        } else {
            None
        }
    }
}

/// The position just past the remaining items of an array whose opening
/// bracket (`first`) or separating comma (`!first`) stands just before `i`.
pub open spec fn items_end(s: Seq<u8>, i: int, first: bool) -> Option<int>
    decreases s.len() - i, 1int,
{
    if !(0 <= i <= s.len()) {
        None
    } else {
        let j = at_least(skip_ws(s, i), i);
        if j > s.len() {
            None
        } else if j < s.len() && first && s[j] == RBRACKET {
            Some(j + 1)
        } else {
            match end_of_value(s, j) {
                Some(e_raw) => {
                    let e = at_least(e_raw, j + 1);
                    let p = at_least(skip_ws(s, e), e);
                    if p < s.len() && s[p] == COMMA {
                        items_end(s, p + 1, false)
                    } else if p < s.len() && s[p] == RBRACKET {
                        Some(p + 1)
                    } else {
                        None
                    }
                },
                None => None,
            }
        }
    }
}

/// The bytes of the member name the candidate objects are read for.
pub open spec fn url_key() -> Seq<u8> {
    seq![0x75u8, 0x72u8, 0x6cu8]  // "url"
}

/// The remaining members of one candidate object whose opening brace
/// (`first`) or separating comma (`!first`) stands just before `i`:
/// the candidate's url and the position just past the closing brace.
///
/// `seen` carries the url found so far.  The object must hold exactly one
/// `url` member and its value must be a string; a missing, repeated or
/// non-string `url` is malformed.  Every other member may hold any JSON
/// value and is skipped.
pub open spec fn candidate_end(s: Seq<u8>, i: int, seen: Option<Seq<u8>>, first: bool) -> Option<
    (Seq<u8>, int),
>
    decreases s.len() - i, 1int,
{
    if !(0 <= i <= s.len()) {
        None
    } else {
        let j = at_least(skip_ws(s, i), i);
        if j < s.len() && first && s[j] == RBRACE {
            match seen {
                Some(u) => Some((u, j + 1)),
                None => None,
            }
        } else if j < s.len() && s[j] == QUOTE {
            match str_body(s, j + 1) {
                Some(key) => {
                    let e = at_least(key.1, j + 2);
                    let k = at_least(skip_ws(s, e), e);
                    if k < s.len() && s[k] == COLON {
                        let m = at_least(skip_ws(s, k + 1), k + 1);
                        if key.0 == url_key() {
                            if seen is Some {
                                None
                            } else if m < s.len() && s[m] == QUOTE {
                                match str_body(s, m + 1) {
                                    Some(u) => candidate_tail(s, at_least(u.1, m + 2), Some(u.0), i),
                                    None => None,
                                }
                            } else {
                                None
                            }
                        } else if m > s.len() {
                            None
                        } else {
                            match end_of_value(s, m) {
                                Some(e2_raw) => candidate_tail(
                                    s,
                                    at_least(e2_raw, m + 1),
                                    seen,
                                    i,
                                ),
                                None => None,
                            }
                        }
                    } else {
                        None
                    }
                },
                None => None,
            }
        } else {
            None
        }
    }
}

/// After one member of a candidate object, ending at `e2`: a comma
/// continues with further members, a closing brace ends the object.
/// `lo` is the position the member started from; it only bounds `e2`
/// from below.
pub open spec fn candidate_tail(s: Seq<u8>, e2: int, seen: Option<Seq<u8>>, lo: int) -> Option<
    (Seq<u8>, int),
>
    decreases at_least(s.len() - at_least(e2, lo + 1), 0), 0int,
{
    let e3 = at_least(e2, lo + 1);
    let p = at_least(skip_ws(s, e3), e3);
    if p < s.len() && s[p] == COMMA {
        candidate_end(s, p + 1, seen, false)
    } else if p < s.len() && s[p] == RBRACE {
        match seen {
            Some(u) => Some((u, p + 1)),
            None => None,
        }
    } else {
        None
    }
}

/// The remaining candidate objects of the response array, whose opening
/// bracket (`first`) or separating comma (`!first`) stands just before
/// `i`: their urls in response order, and the position just past the
/// closing bracket.  Every item of the array must be a candidate object.
pub open spec fn candidates_end(s: Seq<u8>, i: int, first: bool) -> Option<(Seq<Seq<u8>>, int)>
    decreases s.len() - i,
{
    if !(0 <= i <= s.len()) {
        None
    } else {
        let j = at_least(skip_ws(s, i), i);
        if j < s.len() && first && s[j] == RBRACKET {
            Some((Seq::empty(), j + 1))
        } else if j < s.len() && s[j] == LBRACE {
            match candidate_end(s, j + 1, None, true) {
                Some(c) => {
                    let e = at_least(c.1, j + 2);
                    let p = at_least(skip_ws(s, e), e);
                    if p < s.len() && s[p] == COMMA {
                        match candidates_end(s, p + 1, false) {
                            Some(rest) => Some((seq![c.0] + rest.0, rest.1)),
                            None => None,
                        }
                    } else if p < s.len() && s[p] == RBRACKET {
                        Some((seq![c.0], p + 1))
                    } else {
                        None
                    }
                },
                None => None,
            }
        } else {
            None
        }
    }
}

/// The whole search response: optional whitespace, an array of candidate
/// objects, optional whitespace, end of input.  The result is the
/// candidates' urls in response order, `None` standing for a malformed
/// response.
pub open spec fn search_urls(s: Seq<u8>) -> Option<Seq<Seq<u8>>> {
    let j = at_least(skip_ws(s, 0), 0);
    if j < s.len() && s[j] == LBRACKET {
        match candidates_end(s, j + 1, true) {
            Some(c) => {
                let p = at_least(skip_ws(s, c.1), c.1);
                if p == s.len() {
                    Some(c.0)
                } else {
                    None
                }
            },
            None => None,
        }
    } else {
        None
    }
}

fn skip_ws_x(s: &Vec<u8>, i: usize) -> (r: usize)
    requires
        i <= s@.len(),
    ensures
        i <= r <= s@.len(),
        r == skip_ws(s@, i as int),
    decreases s@.len() - i,
{
    if i < s.len() {
        let b = s[i];
        if b == 0x20 || b == 0x09 || b == 0x0a || b == 0x0d {
            return skip_ws_x(s, i + 1);
        }
    }
    i
}

fn esc_byte_x(b: u8) -> (r: Option<u8>)
    ensures
        r == esc_byte(b),
{
    if b == QUOTE {
        Some(QUOTE)
    } else if b == BACKSLASH {
        Some(BACKSLASH)
    } else if b == 0x2f {
        Some(0x2f)
    } else if b == 0x62 {
        Some(0x08)
    } else if b == 0x66 {
        Some(0x0c)
    } else if b == 0x6e {
        Some(0x0a)
    } else if b == 0x72 {
        Some(0x0d)
    } else if b == 0x74 {
        Some(0x09)
    } else {
        None
    }
}

fn hex_val_x(b: u8) -> (r: Option<u8>)
    ensures
        r == hex_val(b),
{
    if 0x30 <= b && b <= 0x39 {
        Some(b - 0x30)
    } else if 0x41 <= b && b <= 0x46 {
        Some(b - 0x37)
    } else if 0x61 <= b && b <= 0x66 {
        Some(b - 0x57)
    } else {
        None
    }
}

fn hex4_x(s: &Vec<u8>, i: usize) -> (r: Option<u32>)
    requires
        i <= s@.len(),
    ensures
        (r matches Some(c) ==> c < 0x10000 && hex4(s@, i as int) == Some(c as int)),
        (r is None ==> hex4(s@, i as int) is None),
{
    if s.len() - i >= 4 {
        let a = hex_val_x(s[i]);
        let b = hex_val_x(s[i + 1]);
        let c = hex_val_x(s[i + 2]);
        let d = hex_val_x(s[i + 3]);
        match (a, b, c, d) {
            (Some(a), Some(b), Some(c), Some(d)) => Some(
                (a as u32) * 0x1000 + (b as u32) * 0x100 + (c as u32) * 0x10 + (d as u32),
            ),
            _ => None,
        }
    } else {
        None
    }
}

/// Appends the UTF-8 encoding of the code point `c`.
fn push_utf8(out: &mut Vec<u8>, c: u32)
    requires
        c < 0x110000,
    ensures
        final(out)@ == old(out)@ + utf8_enc(c as int),
{
    if c < 0x80 {
        out.push(c as u8);
    } else if c < 0x800 {
        out.push((0xc0 + c / 0x40) as u8);
        out.push((0x80 + c % 0x40) as u8);
    } else if c < 0x10000 {
        out.push((0xe0 + c / 0x1000) as u8);
        out.push((0x80 + (c / 0x40) % 0x40) as u8);
        out.push((0x80 + c % 0x40) as u8);
    } else {
        out.push((0xf0 + c / 0x40000) as u8);
        out.push((0x80 + (c / 0x1000) % 0x40) as u8);
        out.push((0x80 + (c / 0x40) % 0x40) as u8);
        out.push((0x80 + c % 0x40) as u8);
    }
    proof {
        assert(out@ =~= old(out)@ + utf8_enc(c as int));
    }
}

fn utf8_len_x(s: &Vec<u8>, i: usize) -> (r: Option<usize>)
    requires
        i < s@.len(),
    ensures
        (r matches Some(n) ==> 1 <= n && i + n <= s@.len() && utf8_len(s@, i as int) == Some(
            n as int,
        )),
        (r is None ==> utf8_len(s@, i as int) is None),
{
    let b = s[i];
    let left = s.len() - i;
    if b < 0x80 {
        Some(1)
    } else if 0xc2 <= b && b <= 0xdf {
        if left >= 2 && 0x80 <= s[i + 1] && s[i + 1] < 0xc0 {
            Some(2)
        } else {
            None
        }
    } else if b == 0xe0 {
        if left >= 3 && 0xa0 <= s[i + 1] && s[i + 1] < 0xc0 && 0x80 <= s[i + 2] && s[i + 2] < 0xc0 {
            Some(3)
        } else {
            None
        }
    } else if b == 0xed {
        if left >= 3 && 0x80 <= s[i + 1] && s[i + 1] < 0xa0 && 0x80 <= s[i + 2] && s[i + 2] < 0xc0 {
            Some(3)
        } else {
            None
        }
    } else if 0xe1 <= b && b <= 0xef {
        if left >= 3 && 0x80 <= s[i + 1] && s[i + 1] < 0xc0 && 0x80 <= s[i + 2] && s[i + 2] < 0xc0 {
            Some(3)
        } else {
            None
        }
    } else if b == 0xf0 {
        if left >= 4 && 0x90 <= s[i + 1] && s[i + 1] < 0xc0 && 0x80 <= s[i + 2] && s[i + 2] < 0xc0
            && 0x80 <= s[i + 3] && s[i + 3] < 0xc0 {
            Some(4)
        } else {
            None
        }
    } else if 0xf1 <= b && b <= 0xf3 {
        if left >= 4 && 0x80 <= s[i + 1] && s[i + 1] < 0xc0 && 0x80 <= s[i + 2] && s[i + 2] < 0xc0
            && 0x80 <= s[i + 3] && s[i + 3] < 0xc0 {
            Some(4)
        } else {
            None
        }
    } else if b == 0xf4 {
        if left >= 4 && 0x80 <= s[i + 1] && s[i + 1] < 0x90 && 0x80 <= s[i + 2] && s[i + 2] < 0xc0
            && 0x80 <= s[i + 3] && s[i + 3] < 0xc0 {
            Some(4)
        } else {
            None
        }
    } else {
        None
    }
}

fn str_body_x(s: &Vec<u8>, i: usize) -> (r: Option<(Vec<u8>, usize)>)
    requires
        i <= s@.len(),
    ensures
        (r matches Some(p) ==> i < p.1 <= s@.len() && str_body(s@, i as int) == Some(
            (p.0@, p.1 as int),
        )),
        (r is None ==> str_body(s@, i as int) is None),
    decreases s@.len() - i,
{
    if i >= s.len() {
        return None;
    }
    let b = s[i];
    if b == QUOTE {
        Some((Vec::new(), i + 1))
    } else if b == BACKSLASH {
        if s.len() - i >= 2 {
            let e = s[i + 1];
            if e == 0x75 {
                match hex4_x(s, i + 2) {
                    Some(c1) => {
                        if 0xd800 <= c1 && c1 < 0xdc00 {
                            if s.len() - i >= 8 && s[i + 6] == BACKSLASH && s[i + 7] == 0x75 {
                                match hex4_x(s, i + 8) {
                                    Some(c2) => {
                                        if 0xdc00 <= c2 && c2 < 0xe000 {
                                            let cp: u32 = 0x10000 + (c1 - 0xd800) * 0x400 + (c2
                                                - 0xdc00);
                                            match str_body_x(s, i + 12) {
                                                Some((rest, e2)) => {
                                                    let mut out: Vec<u8> = Vec::new();
                                                    push_utf8(&mut out, cp);
                                                    let mut tail = rest;
                                                    out.append(&mut tail);
                                                    Some((out, e2))
                                                },
                                                None => None,
                                            }
                                        } else {
                                            None
                                        }
                                    },
                                    None => None,
                                }
                            } else {
                                None
                            }
                        } else if 0xdc00 <= c1 && c1 < 0xe000 {
                            None
                        } else {
                            match str_body_x(s, i + 6) {
                                Some((rest, e2)) => {
                                    let mut out: Vec<u8> = Vec::new();
                                    push_utf8(&mut out, c1);
                                    let mut tail = rest;
                                    out.append(&mut tail);
                                    Some((out, e2))
                                },
                                None => None,
                            }
                        }
                    },
                    None => None,
                }
            } else {
                match esc_byte_x(e) {
                    Some(m) => match str_body_x(s, i + 2) {
                        Some((rest, e2)) => {
                            let mut out: Vec<u8> = Vec::new();
                            out.push(m);
                            let mut tail = rest;
                            out.append(&mut tail);
                            Some((out, e2))
                        },
                        None => None,
                    },
                    None => None,
                }
            }
        } else {
            None
        }
    } else if b < 0x20 {
        None
    } else {
        match utf8_len_x(s, i) {
            Some(n) => match str_body_x(s, i + n) {
                Some((rest, e2)) => {
                    let mut out: Vec<u8> = Vec::new();
                    let end: usize = i + n;
                    let mut k: usize = i;
                    while k < end
                        invariant
                            i <= k <= end,
                            end <= s@.len(),
                            out@ == s@.subrange(i as int, k as int),
                        decreases end - k,
                    {
                        out.push(s[k]);
                        proof {
                            assert(s@.subrange(i as int, k + 1 as int) =~= s@.subrange(
                                i as int,
                                k as int,
                            ) + seq![s@[k as int]]);
                        }
                        k = k + 1;
                    }
                    let mut tail = rest;
                    out.append(&mut tail);
                    Some((out, e2))
                },
                None => None,
            },
            None => None,
        }
    }
}

fn digits_end_x(s: &Vec<u8>, i: usize) -> (r: usize)
    requires
        i <= s@.len(),
    ensures
        i <= r <= s@.len(),
        r == digits_end(s@, i as int),
    decreases s@.len() - i,
{
    if i < s.len() {
        let b = s[i];
        if 0x30 <= b && b <= 0x39 {
            return digits_end_x(s, i + 1);
        }
    }
    i
}

fn number_end_x(s: &Vec<u8>, i: usize) -> (r: Option<usize>)
    requires
        i <= s@.len(),
    ensures
        (r matches Some(e) ==> i < e <= s@.len() && number_end(s@, i as int) == Some(e as int)),
        (r is None ==> number_end(s@, i as int) is None),
{
    let j: usize = if i < s.len() && s[i] == MINUS {
        i + 1
    } else {
        i
    };
    if !(j < s.len() && 0x30 <= s[j] && s[j] <= 0x39) {
        return None;
    }
    let k: usize = if s[j] == 0x30 {
        j + 1
    } else {
        digits_end_x(s, j + 1)
    };
    let k2: usize = if k < s.len() && s[k] == DOT {
        if k + 1 < s.len() && 0x30 <= s[k + 1] && s[k + 1] <= 0x39 {
            digits_end_x(s, k + 2)
        } else {
            return None;
        }
    } else {
        k
    };
    if k2 < s.len() && (s[k2] == 0x65 || s[k2] == 0x45) {
        let j2: usize = if k2 + 1 < s.len() && (s[k2 + 1] == PLUS || s[k2 + 1] == MINUS) {
            k2 + 2
        } else {
            k2 + 1
        };
        if j2 < s.len() && 0x30 <= s[j2] && s[j2] <= 0x39 {
            Some(digits_end_x(s, j2 + 1))
        } else {
            None
        }
    } else {
        Some(k2)
    }
}

fn end_of_value_x(s: &Vec<u8>, i: usize) -> (r: Option<usize>)
    requires
        i <= s@.len(),
    ensures
        (r matches Some(e) ==> i < e <= s@.len() && end_of_value(s@, i as int) == Some(e as int)),
        (r is None ==> end_of_value(s@, i as int) is None),
    decreases s@.len() - i, 0int,
{
    if i >= s.len() {
        return None;
    }
    let b = s[i];
    if b == QUOTE {
        match str_body_x(s, i + 1) {
            Some((_, e)) => Some(e),
            None => None,
        }
    } else if b == LBRACE {
        members_end_x(s, i + 1, true)
    } else if b == LBRACKET {
        items_end_x(s, i + 1, true)
    } else if b == 0x74 {
        if s.len() - i >= 4 && s[i + 1] == 0x72 && s[i + 2] == 0x75 && s[i + 3] == 0x65 {
            Some(i + 4)
        } else {
            None
        }
    } else if b == 0x66 {
        if s.len() - i >= 5 && s[i + 1] == 0x61 && s[i + 2] == 0x6c && s[i + 3] == 0x73 && s[i + 4]
            == 0x65 {
            Some(i + 5)
        } else {
            None
        }
    } else if b == 0x6e {
        if s.len() - i >= 4 && s[i + 1] == 0x75 && s[i + 2] == 0x6c && s[i + 3] == 0x6c {
            Some(i + 4)
        } else {
            None
        }
    } else if b == MINUS || (0x30 <= b && b <= 0x39) {
        number_end_x(s, i)
    } else {
        None
    }
}

fn members_end_x(s: &Vec<u8>, i: usize, first: bool) -> (r: Option<usize>)
    requires
        i <= s@.len(),
    ensures
        (r matches Some(e) ==> i < e <= s@.len() && members_end(s@, i as int, first) == Some(
            e as int,
        )),
        (r is None ==> members_end(s@, i as int, first) is None),
    decreases s@.len() - i, 1int,
{
    let j = skip_ws_x(s, i);
    if j < s.len() && first && s[j] == RBRACE {
        return Some(j + 1);
    }
    if !(j < s.len() && s[j] == QUOTE) {
        return None;
    }
    match str_body_x(s, j + 1) {
        Some((_, e)) => {
            let k = skip_ws_x(s, e);
            if !(k < s.len() && s[k] == COLON) {
                return None;
            }
            let m = skip_ws_x(s, k + 1);
            match end_of_value_x(s, m) {
                Some(e2) => {
                    let p = skip_ws_x(s, e2);
                    if p < s.len() && s[p] == COMMA {
                        members_end_x(s, p + 1, false)
                    } else if p < s.len() && s[p] == RBRACE {
                        Some(p + 1)
                    } else {
                        None
                    }
                },
                None => None,
            }
        },
        None => None,
    }
}

fn items_end_x(s: &Vec<u8>, i: usize, first: bool) -> (r: Option<usize>)
    requires
        i <= s@.len(),
    ensures
        (r matches Some(e) ==> i < e <= s@.len() && items_end(s@, i as int, first) == Some(
            e as int,
        )),
        (r is None ==> items_end(s@, i as int, first) is None),
    decreases s@.len() - i, 1int,
{
    let j = skip_ws_x(s, i);
    if j < s.len() && first && s[j] == RBRACKET {
        return Some(j + 1);
    }
    match end_of_value_x(s, j) {
        Some(e) => {
            let p = skip_ws_x(s, e);
            if p < s.len() && s[p] == COMMA {
                items_end_x(s, p + 1, false)
            } else if p < s.len() && s[p] == RBRACKET {
                Some(p + 1)
            } else {
                None
            }
        },
        None => None,
    }
}

/// A list of urls as the grammar sees it: each url a byte sequence.
pub open spec fn urls_view(v: Vec<Vec<u8>>) -> Seq<Seq<u8>> {
    v@.map_values(|u: Vec<u8>| u@)
}

/// The url carried while a candidate object is read, as the grammar sees it.
pub open spec fn opt_view(o: Option<Vec<u8>>) -> Option<Seq<u8>> {
    match o {
        Some(v) => Some(v@),
        None => None,
    }
}

fn candidate_end_x(s: &Vec<u8>, i: usize, seen: Option<Vec<u8>>, first: bool) -> (r: Option<
    (Vec<u8>, usize),
>)
    requires
        i <= s@.len(),
    ensures
        (r matches Some(p) ==> i < p.1 <= s@.len() && candidate_end(
            s@,
            i as int,
            opt_view(seen),
            first,
        ) == Some((p.0@, p.1 as int))),
        (r is None ==> candidate_end(s@, i as int, opt_view(seen), first) is None),
    decreases s@.len() - i,
{
    let j = skip_ws_x(s, i);
    if j < s.len() && first && s[j] == RBRACE {
        return match seen {
            Some(u) => Some((u, j + 1)),
            None => None,
        };
    }
    if !(j < s.len() && s[j] == QUOTE) {
        return None;
    }
    match str_body_x(s, j + 1) {
        Some((key, e)) => {
            let k = skip_ws_x(s, e);
            if !(k < s.len() && s[k] == COLON) {
                return None;
            }
            let m = skip_ws_x(s, k + 1);
            let is_url = key.len() == 3 && key[0] == 0x75 && key[1] == 0x72 && key[2] == 0x6c;
            proof {
                if is_url {
                    assert(key@ =~= url_key());
                } else {
                    assert(key@ != url_key());
                }
            }
            if is_url {
                if seen.is_some() {
                    return None;
                }
                if !(m < s.len() && s[m] == QUOTE) {
                    return None;
                }
                match str_body_x(s, m + 1) {
                    Some((u, e2)) => {
                        let p = skip_ws_x(s, e2);
                        if p < s.len() && s[p] == COMMA {
                            candidate_end_x(s, p + 1, Some(u), false)
                        } else if p < s.len() && s[p] == RBRACE {
                            Some((u, p + 1))
                        } else {
                            None
                        }
                    },
                    None => None,
                }
            } else {
                match end_of_value_x(s, m) {
                    Some(e2) => {
                        let p = skip_ws_x(s, e2);
                        if p < s.len() && s[p] == COMMA {
                            candidate_end_x(s, p + 1, seen, false)
                        } else if p < s.len() && s[p] == RBRACE {
                            match seen {
                                Some(u) => Some((u, p + 1)),
                                None => None,
                            }
                        } else {
                            None
                        }
                    },
                    None => None,
                }
            }
        },
        None => None,
    }
}

fn candidates_end_x(s: &Vec<u8>, i: usize, first: bool) -> (r: Option<(Vec<Vec<u8>>, usize)>)
    requires
        i <= s@.len(),
    ensures
        (r matches Some(p) ==> i < p.1 <= s@.len() && candidates_end(s@, i as int, first) == Some(
            (urls_view(p.0), p.1 as int),
        )),
        (r is None ==> candidates_end(s@, i as int, first) is None),
    decreases s@.len() - i,
{
    let j = skip_ws_x(s, i);
    if j < s.len() && first && s[j] == RBRACKET {
        let out: Vec<Vec<u8>> = Vec::new();
        proof {
            assert(urls_view(out) =~= Seq::<Seq<u8>>::empty());
        }
        return Some((out, j + 1));
    }
    if !(j < s.len() && s[j] == LBRACE) {
        return None;
    }
    match candidate_end_x(s, j + 1, None, true) {
        Some((u, e)) => {
            let p = skip_ws_x(s, e);
            if p < s.len() && s[p] == COMMA {
                match candidates_end_x(s, p + 1, false) {
                    Some((rest, e2)) => {
                        let ghost spec_u = u@;
                        let ghost spec_rest = urls_view(rest);
                        let mut out = rest;
                        out.insert(0, u);
                        proof {
                            assert(urls_view(out) =~= seq![spec_u] + spec_rest);
                        }
                        Some((out, e2))
                    },
                    None => None,
                }
            } else if p < s.len() && s[p] == RBRACKET {
                let ghost spec_u = u@;
                let mut out: Vec<Vec<u8>> = Vec::new();
                out.push(u);
                proof {
                    assert(urls_view(out) =~= seq![spec_u]);
                }
                Some((out, p + 1))
            } else {
                None
            }
        },
        None => None,
    }
}

/// Parses a whole search response: the candidates' urls in response order,
/// or `None` for a malformed response.
pub(crate) fn search_urls_x(s: &Vec<u8>) -> (r: Option<Vec<Vec<u8>>>)
    ensures
        (r matches Some(v) ==> search_urls(s@) == Some(urls_view(v))),
        (r is None ==> search_urls(s@) is None),
{
    let j = skip_ws_x(s, 0);
    if !(j < s.len() && s[j] == LBRACKET) {
        return None;
    }
    match candidates_end_x(s, j + 1, true) {
        Some((v, e)) => {
            let p = skip_ws_x(s, e);
            if p == s.len() {
                Some(v)
            } else {
                None
            }
        },
        None => None,
    }
}

} // verus!
