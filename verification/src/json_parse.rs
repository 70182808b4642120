//! JSON parsing.
//!
//! [`spec_parse_json`] is a mathematical recursive-descent parser over raw
//! bytes: it defines exactly which byte sequences are well-formed JSON
//! documents and what [`SpecJson`] document each of them denotes.  The
//! executable [`parse_json`] returns precisely what the mathematical parser
//! says, or `None` exactly when the input is not well-formed.
//!
//! The grammar is the standard one: optional whitespace around tokens,
//! objects, arrays, strings with the usual escapes (including `\uXXXX` with
//! surrogate pairs, decoded to UTF-8), numbers, `true`, `false` and `null`.
//! Trailing commas, leading zeros, lone surrogates and unescaped control
//! bytes are rejected.  An integer that fits `i64` and is written without a
//! fraction or exponent becomes [`SpecJson::Int`]; any other number keeps
//! its literal text as [`SpecJson::NumLit`].
//!
//! Several branches of the mathematical parser carry index guards (such as
//! `i < j && j <= s.len()`) that also hold whenever the guarded call is
//! reached; they keep every recursive call visibly descending.

use vstd::prelude::*;

use crate::json::{members_view, arr_view, lemma_members_view_index, lemma_arr_view_index,
    JsonValue, SpecJson};

verus! {

/// Whether `b` is JSON whitespace.
pub open spec fn is_ws(b: u8) -> bool {
    b == 0x20 || b == 0x09 || b == 0x0a || b == 0x0d
}

/// Whether `b` is a decimal digit.
pub open spec fn is_digit(b: u8) -> bool {
    0x30 <= b <= 0x39
}

/// The first index at or after `i` holding a byte that is not whitespace,
/// or the end of the input.
pub open spec fn skip_ws(s: Seq<u8>, i: int) -> int
    decreases s.len() - i,
{
    if 0 <= i < s.len() && is_ws(s[i]) {
        skip_ws(s, i + 1)
    } else {
        i
    }
}

/// The first index at or after `i` holding a byte that is not a digit,
/// or the end of the input.
pub open spec fn scan_digits(s: Seq<u8>, i: int) -> int
    decreases s.len() - i,
{
    if 0 <= i < s.len() && is_digit(s[i]) {
        scan_digits(s, i + 1)
    } else {
        i
    }
}

/// The value of the decimal digit run `s[i..j)`.
pub open spec fn digits_val(s: Seq<u8>, i: int, j: int) -> nat
    decreases j - i,
{
    if i >= j {
        0
    } else {
        digits_val(s, i, j - 1) * 10 + (s[j - 1] - 0x30) as nat
    }
}

/// The value of a hexadecimal digit byte, if it is one.
pub open spec fn hex_val(b: u8) -> Option<nat> {
    if 0x30 <= b <= 0x39 {
        Some((b - 0x30) as nat)
    } else if 0x61 <= b <= 0x66 {
        Some((b - 0x61 + 10) as nat)
    } else if 0x41 <= b <= 0x46 {
        Some((b - 0x41 + 10) as nat)
    } else {
        None
    }
}

/// The value of the four hexadecimal digits at `s[i..i+4)`, if all four
/// are in range and are hexadecimal digits.
pub open spec fn hex4(s: Seq<u8>, i: int) -> Option<nat> {
    if 0 <= i && i + 4 <= s.len() {
        match (hex_val(s[i]), hex_val(s[i + 1]), hex_val(s[i + 2]), hex_val(s[i + 3])) {
            (Some(a), Some(b), Some(c), Some(d)) => Some(a * 4096 + b * 256 + c * 16 + d),
            _ => None,
        }
    } else {
        None
    }
}

/// The UTF-8 encoding of the code point `c < 0x110000`.
pub open spec fn utf8_enc(c: nat) -> Seq<u8> {
    if c < 0x80 {
        seq![c as u8]
    } else if c < 0x800 {
        seq![(0xc0 + c / 64) as u8, (0x80 + c % 64) as u8]
    } else if c < 0x10000 {
        seq![(0xe0 + c / 4096) as u8, (0x80 + (c / 64) % 64) as u8, (0x80 + c % 64) as u8]
    } else {
        seq![
            (0xf0 + c / 262144) as u8,
            (0x80 + (c / 4096) % 64) as u8,
            (0x80 + (c / 64) % 64) as u8,
            (0x80 + c % 64) as u8,
        ]
    }
}

/// The decoding of one escape sequence whose introducing backslash stands
/// at `i - 1`: the decoded bytes and the index just after the escape.
pub open spec fn parse_esc(s: Seq<u8>, i: int) -> Option<(Seq<u8>, int)> {
    if !(0 <= i < s.len()) {
        None
    } else if s[i] == 0x22 {
        Some((seq![0x22u8], i + 1))
    } else if s[i] == 0x5c {
        Some((seq![0x5cu8], i + 1))
    } else if s[i] == 0x2f {
        Some((seq![0x2fu8], i + 1))
    } else if s[i] == 0x62 {
        Some((seq![0x08u8], i + 1))
    } else if s[i] == 0x66 {
        Some((seq![0x0cu8], i + 1))
    } else if s[i] == 0x6e {
        Some((seq![0x0au8], i + 1))
    } else if s[i] == 0x72 {
        Some((seq![0x0du8], i + 1))
    } else if s[i] == 0x74 {
        Some((seq![0x09u8], i + 1))
    } else if s[i] == 0x75 {
        match hex4(s, i + 1) {
            None => None,
            Some(c) => if 0xd800 <= c < 0xdc00 {
                // high surrogate: a low surrogate escape must follow
                if i + 11 <= s.len() && s[i + 5] == 0x5c && s[i + 6] == 0x75 {
                    match hex4(s, i + 7) {
                        None => None,
                        Some(d) => if 0xdc00 <= d < 0xe000 {
                            Some(
                                (
                                    utf8_enc(
                                        (0x10000 + (c - 0xd800) * 0x400 + (d - 0xdc00)) as nat,
                                    ),
                                    i + 11,
                                ),
                            )
                        } else {
                            None
                        },
                    }
                } else {
                    None
                }
            } else if 0xdc00 <= c < 0xe000 {
                // lone low surrogate
                None
            } else {
                Some((utf8_enc(c), i + 5))
            },
        }
    } else {
        None
    }
}

/// The decoded body of a string whose opening quote stands before `i`:
/// the decoded bytes and the index just after the closing quote.
pub open spec fn parse_str_body(s: Seq<u8>, i: int) -> Option<(Seq<u8>, int)>
    decreases s.len() - i,
{
    if !(0 <= i < s.len()) {
        None
    } else if s[i] == 0x22 {
        Some((Seq::empty(), i + 1))
    } else if s[i] == 0x5c {
        match parse_esc(s, i + 1) {
            None => None,
            Some((cs, j)) => if i < j && j <= s.len() {
                match parse_str_body(s, j) {
                    None => None,
                    Some((rest, e)) => Some((cs + rest, e)),
                }
            } else {
                None
            },
        }
    } else if s[i] < 0x20 {
        None
    } else {
        match parse_str_body(s, i + 1) {
            None => None,
            Some((rest, e)) => Some((seq![s[i]] + rest, e)),
        }
    }
}

/// The longest well-formed number starting at `i` (whose first byte is a
/// digit or a minus sign): its document value and the index after it.
pub open spec fn parse_number(s: Seq<u8>, i: int) -> Option<(SpecJson, int)> {
    if !(0 <= i < s.len()) {
        None
    } else {
        let neg = s[i] == 0x2d;
        let i0 = if neg {
            i + 1
        } else {
            i
        };
        if !(i0 < s.len() && is_digit(s[i0])) {
            None
        } else {
            let i1 = scan_digits(s, i0);
            if s[i0] == 0x30 && i1 > i0 + 1 {
                // leading zero
                None
            } else {
                match parse_frac_exp(s, i1) {
                    None => None,
                    Some(end) => if end == i1 {
                        let v = digits_val(s, i0, i1) as int;
                        let sv = if neg {
                            -v
                        } else {
                            v
                        };
                        if -0x8000_0000_0000_0000 <= sv <= 0x7fff_ffff_ffff_ffff {
                            Some((SpecJson::Int(sv as i64), i1))
                        } else {
                            Some((SpecJson::NumLit(s.subrange(i, i1)), i1))
                        }
                    } else {
                        Some((SpecJson::NumLit(s.subrange(i, end)), end))
                    },
                }
            }
        }
    }
}

/// The end of the optional fraction and exponent parts starting at `i`,
/// or `None` if one of them is started but malformed.
pub open spec fn parse_frac_exp(s: Seq<u8>, i: int) -> Option<int> {
    match parse_frac(s, i) {
        None => None,
        Some(j) => parse_exp(s, j),
    }
}

/// The end of the optional fraction part starting at `i`.
pub open spec fn parse_frac(s: Seq<u8>, i: int) -> Option<int> {
    if 0 <= i < s.len() && s[i] == 0x2e {
        let j = scan_digits(s, i + 1);
        if j > i + 1 {
            Some(j)
        } else {
            None
        }
    } else {
        Some(i)
    }
}

/// The end of the optional exponent part starting at `i`.
pub open spec fn parse_exp(s: Seq<u8>, i: int) -> Option<int> {
    if 0 <= i < s.len() && (s[i] == 0x65 || s[i] == 0x45) {
        let j = if i + 1 < s.len() && (s[i + 1] == 0x2b || s[i + 1] == 0x2d) {
            i + 2
        } else {
            i + 1
        };
        let k = scan_digits(s, j);
        if k > j {
            Some(k)
        } else {
            None
        }
    } else {
        Some(i)
    }
}

/// The document starting at index `i`, which must hold the first byte of a
/// value (no leading whitespace), and the index just after that value.
pub open spec fn parse_value(s: Seq<u8>, i: int) -> Option<(SpecJson, int)>
    decreases s.len() - i, 0int,
{
    if !(0 <= i < s.len()) {
        None
    } else if s[i] == 0x7b {
        let j = skip_ws(s, i + 1);
        if i < j && j <= s.len() {
            match parse_members(s, j) {
                None => None,
                Some((members, e)) => Some((SpecJson::Obj(members), e)),
            }
        } else {
            None
        }
    } else if s[i] == 0x5b {
        let j = skip_ws(s, i + 1);
        if i < j && j <= s.len() {
            match parse_items(s, j) {
                None => None,
                Some((items, e)) => Some((SpecJson::Arr(items), e)),
            }
        } else {
            None
        }
    } else if s[i] == 0x22 {
        match parse_str_body(s, i + 1) {
            None => None,
            Some((bs, e)) => Some((SpecJson::Str(bs), e)),
        }
    } else if s[i] == 0x74 {
        if i + 4 <= s.len() && s[i + 1] == 0x72 && s[i + 2] == 0x75 && s[i + 3] == 0x65 {
            Some((SpecJson::Bool(true), i + 4))
        } else {
            None
        }
    } else if s[i] == 0x66 {
        if i + 5 <= s.len() && s[i + 1] == 0x61 && s[i + 2] == 0x6c && s[i + 3] == 0x73 && s[i + 4]
            == 0x65 {
            Some((SpecJson::Bool(false), i + 5))
        } else {
            None
        }
    } else if s[i] == 0x6e {
        if i + 4 <= s.len() && s[i + 1] == 0x75 && s[i + 2] == 0x6c && s[i + 3] == 0x6c {
            Some((SpecJson::Null, i + 4))
        } else {
            None
        }
    } else if s[i] == 0x2d || is_digit(s[i]) {
        parse_number(s, i)
    } else {
        None
    }
}

/// The members of an object whose opening brace and following whitespace
/// stand before `i`, up to and including the closing brace: the member
/// sequence and the index just after the brace.
pub open spec fn parse_members(s: Seq<u8>, i: int) -> Option<(Seq<(Seq<u8>, SpecJson)>, int)>
    decreases s.len() - i, 1int,
{
    if !(0 <= i < s.len()) {
        None
    } else if s[i] == 0x7d {
        Some((Seq::empty(), i + 1))
    } else if s[i] == 0x22 {
        match parse_str_body(s, i + 1) {
            None => None,
            Some((key, j)) => if i < j && j <= s.len() {
                let k = skip_ws(s, j);
                if k < s.len() && s[k] == 0x3a && j <= k {
                    let m = skip_ws(s, k + 1);
                    if i < m && m <= s.len() {
                        match parse_value(s, m) {
                            None => None,
                            Some((val, e)) => if i < e && e <= s.len() {
                                let p = skip_ws(s, e);
                                if p < s.len() && s[p] == 0x7d && i < p {
                                    Some((seq![(key, val)], p + 1))
                                } else if p < s.len() && s[p] == 0x2c && i < p {
                                    let q = skip_ws(s, p + 1);
                                    if i < q && q <= s.len() && q < s.len() && s[q] == 0x22 {
                                        match parse_members(s, q) {
                                            None => None,
                                            Some((rest, e2)) => Some(
                                                (seq![(key, val)] + rest, e2),
                                            ),
                                        }
                                    } else {
                                        None
                                    }
                                } else {
                                    None
                                }
                            } else {
                                None
                            },
                        }
                    } else {
                        None
                    }
                } else {
                    None
                }
            } else {
                None
            },
        }
    } else {
        None
    }
}

/// The items of an array whose opening bracket and following whitespace
/// stand before `i`, up to and including the closing bracket: the item
/// sequence and the index just after the bracket.
pub open spec fn parse_items(s: Seq<u8>, i: int) -> Option<(Seq<SpecJson>, int)>
    decreases s.len() - i, 1int,
{
    if !(0 <= i < s.len()) {
        None
    } else if s[i] == 0x5d {
        Some((Seq::empty(), i + 1))
    } else {
        match parse_value(s, i) {
            None => None,
            Some((val, e)) => if i < e && e <= s.len() {
                let p = skip_ws(s, e);
                if p < s.len() && s[p] == 0x5d && i < p {
                    Some((seq![val], p + 1))
                } else if p < s.len() && s[p] == 0x2c && i < p {
                    let q = skip_ws(s, p + 1);
                    if i < q && q <= s.len() && q < s.len() && s[q] != 0x5d {
                        match parse_items(s, q) {
                            None => None,
                            Some((rest, e2)) => Some((seq![val] + rest, e2)),
                        }
                    } else {
                        None
                    }
                } else {
                    None
                }
            } else {
                None
            },
        }
    }
}

/// The document denoted by the whole input: a single value surrounded by
/// optional whitespace, or `None` if the input is not well-formed JSON.
pub open spec fn spec_parse_json(s: Seq<u8>) -> Option<SpecJson> {
    let i = skip_ws(s, 0);
    match parse_value(s, i) {
        None => None,
        Some((v, j)) => if skip_ws(s, j) == s.len() {
            Some(v)
        } else {
            None
        },
    }
}


/// Skips whitespace, returning the index of the next non-whitespace byte.
fn skip_ws_x(s: &[u8], i: usize) -> (r: usize)
    requires
        i <= s@.len(),
    ensures
        r == skip_ws(s@, i as int),
        i <= r <= s@.len(),
{
    let mut j: usize = i;
    while j < s.len() && (s[j] == 0x20 || s[j] == 0x09 || s[j] == 0x0a || s[j] == 0x0d)
        invariant
            i <= j <= s@.len(),
            skip_ws(s@, i as int) == skip_ws(s@, j as int),
        decreases s@.len() - j,
    {
        proof {
            assert(skip_ws(s@, j as int) == skip_ws(s@, j as int + 1));
        }
        j = j + 1;
    }
    j
}

/// Scans a digit run, returning the index of the first non-digit byte.
pub(crate) fn scan_digits_x(s: &[u8], i: usize) -> (r: usize)
    requires
        i <= s@.len(),
    ensures
        r == scan_digits(s@, i as int),
        i <= r <= s@.len(),
{
    let mut j: usize = i;
    while j < s.len() && 0x30 <= s[j] && s[j] <= 0x39
        invariant
            i <= j <= s@.len(),
            scan_digits(s@, i as int) == scan_digits(s@, j as int),
        decreases s@.len() - j,
    {
        proof {
            assert(scan_digits(s@, j as int) == scan_digits(s@, j as int + 1));
        }
        j = j + 1;
    }
    j
}

/// Copies `s[a..b)` into a fresh vector.
pub(crate) fn copy_range(s: &[u8], a: usize, b: usize) -> (v: Vec<u8>)
    requires
        a <= b <= s@.len(),
    ensures
        v@ == s@.subrange(a as int, b as int),
{
    let mut v: Vec<u8> = Vec::new();
    let mut j: usize = a;
    proof {
        assert(v@ =~= s@.subrange(a as int, a as int));
    }
    while j < b
        invariant
            a <= j <= b <= s@.len(),
            v@ == s@.subrange(a as int, j as int),
        decreases b - j,
    {
        v.push(s[j]);
        proof {
            assert(v@ =~= s@.subrange(a as int, j as int + 1));
        }
        j = j + 1;
    }
    v
}

/// Decodes one hexadecimal digit byte.
fn hex_val_x(b: u8) -> (r: Option<u8>)
    ensures
        match r {
            Some(h) => hex_val(b) == Some(h as nat) && h < 16,
            None => hex_val(b) is None,
        },
{
    if 0x30 <= b && b <= 0x39 {
        Some(b - 0x30)
    } else if 0x61 <= b && b <= 0x66 {
        Some(b - 0x61 + 10)
    } else if 0x41 <= b && b <= 0x46 {
        Some(b - 0x41 + 10)
    } else {
        None
    }
}

/// Decodes the four hexadecimal digits at `s[i..i+4)`.
fn hex4_x(s: &[u8], i: usize) -> (r: Option<u32>)
    requires
        i <= s@.len(),
    ensures
        match r {
            Some(c) => hex4(s@, i as int) == Some(c as nat) && c < 0x10000,
            None => hex4(s@, i as int) is None,
        },
{
    if s.len() - i < 4 {
        return None;
    }
    let a = match hex_val_x(s[i]) {
        Some(h) => h,
        None => {
            return None;
        },
    };
    let b = match hex_val_x(s[i + 1]) {
        Some(h) => h,
        None => {
            return None;
        },
    };
    let c = match hex_val_x(s[i + 2]) {
        Some(h) => h,
        None => {
            return None;
        },
    };
    let d = match hex_val_x(s[i + 3]) {
        Some(h) => h,
        None => {
            return None;
        },
    };
    Some((a as u32) * 4096 + (b as u32) * 256 + (c as u32) * 16 + (d as u32))
}

/// Appends the UTF-8 encoding of the code point `c` to `out`.
fn push_utf8(c: u32, out: &mut Vec<u8>)
    requires
        c < 0x110000,
    ensures
        final(out)@ == old(out)@ + utf8_enc(c as nat),
{
    if c < 0x80 {
        out.push(c as u8);
    } else if c < 0x800 {
        out.push(0xc0 + (c / 64) as u8);
        out.push(0x80 + (c % 64) as u8);
    } else if c < 0x10000 {
        out.push(0xe0 + (c / 4096) as u8);
        out.push(0x80 + ((c / 64) % 64) as u8);
        out.push(0x80 + (c % 64) as u8);
    } else {
        out.push(0xf0 + (c / 262144) as u8);
        out.push(0x80 + ((c / 4096) % 64) as u8);
        out.push(0x80 + ((c / 64) % 64) as u8);
        out.push(0x80 + (c % 64) as u8);
    }
    proof {
        assert(out@ =~= old(out)@ + utf8_enc(c as nat));
    }
}

/// Decodes the escape sequence starting at `i` (just after the backslash),
/// appending its bytes to `out`; returns the index just after the escape.
fn parse_esc_push(s: &[u8], i: usize, out: &mut Vec<u8>) -> (r: Option<usize>)
    requires
        i <= s@.len(),
    ensures
        match r {
            Some(j) => parse_esc(s@, i as int) matches Some(p) && p.1 == j as int && i < j
                <= s@.len() && final(out)@ == old(out)@ + p.0,
            None => parse_esc(s@, i as int) is None && final(out)@ == old(out)@,
        },
{
    if i >= s.len() {
        return None;
    }
    let b = s[i];
    if b == 0x22 {
        out.push(0x22);
        proof {
            assert(out@ =~= old(out)@ + seq![0x22u8]);
        }
        Some(i + 1)
    } else if b == 0x5c {
        out.push(0x5c);
        proof {
            assert(out@ =~= old(out)@ + seq![0x5cu8]);
        }
        Some(i + 1)
    } else if b == 0x2f {
        out.push(0x2f);
        proof {
            assert(out@ =~= old(out)@ + seq![0x2fu8]);
        }
        Some(i + 1)
    } else if b == 0x62 {
        out.push(0x08);
        proof {
            assert(out@ =~= old(out)@ + seq![0x08u8]);
        }
        Some(i + 1)
    } else if b == 0x66 {
        out.push(0x0c);
        proof {
            assert(out@ =~= old(out)@ + seq![0x0cu8]);
        }
        Some(i + 1)
    } else if b == 0x6e {
        out.push(0x0a);
        proof {
            assert(out@ =~= old(out)@ + seq![0x0au8]);
        }
        Some(i + 1)
    } else if b == 0x72 {
        out.push(0x0d);
        proof {
            assert(out@ =~= old(out)@ + seq![0x0du8]);
        }
        Some(i + 1)
    } else if b == 0x74 {
        out.push(0x09);
        proof {
            assert(out@ =~= old(out)@ + seq![0x09u8]);
        }
        Some(i + 1)
    } else if b == 0x75 {
        let c = match hex4_x(s, i + 1) {
            Some(c) => c,
            None => {
                return None;
            },
        };
        if 0xd800 <= c && c < 0xdc00 {
            if s.len() - i >= 11 && s[i + 5] == 0x5c && s[i + 6] == 0x75 {
                let d = match hex4_x(s, i + 7) {
                    Some(d) => d,
                    None => {
                        return None;
                    },
                };
                if 0xdc00 <= d && d < 0xe000 {
                    let code: u32 = 0x10000 + (c - 0xd800) * 0x400 + (d - 0xdc00);
                    push_utf8(code, out);
                    Some(i + 11)
                } else {
                    None
                }
            } else {
                None
            }
        } else if 0xdc00 <= c && c < 0xe000 {
            None
        } else {
            push_utf8(c, out);
            Some(i + 5)
        }
    } else {
        None
    }
}

/// Decodes a string body starting at `i` (just after the opening quote):
/// the decoded bytes and the index just after the closing quote.
fn parse_str_body_x(s: &[u8], i: usize) -> (r: Option<(Vec<u8>, usize)>)
    requires
        i <= s@.len(),
    ensures
        match r {
            Some(p) => parse_str_body(s@, i as int) == Some((p.0@, p.1 as int)) && i < p.1
                <= s@.len(),
            None => parse_str_body(s@, i as int) is None,
        },
{
    let ghost orig = parse_str_body(s@, i as int);
    let mut acc: Vec<u8> = Vec::new();
    let mut j: usize = i;
    proof {
        let cur = parse_str_body(s@, j as int);
        if cur is Some {
            assert(acc@ + cur.unwrap().0 =~= cur.unwrap().0);
        }
    }
    loop
        invariant
            i <= j <= s@.len(),
            orig == parse_str_body(s@, i as int),
            orig == match parse_str_body(s@, j as int) {
                Some((rest, e)) => Some((acc@ + rest, e)),
                None => None,
            },
        decreases s@.len() - j,
    {
        if j >= s.len() {
            return None;
        }
        let b = s[j];
        if b == 0x22 {
            proof {
                assert(acc@ + Seq::<u8>::empty() =~= acc@);
            }
            return Some((acc, j + 1));
        } else if b == 0x5c {
            let ghost acc_before = acc@;
            match parse_esc_push(s, j + 1, &mut acc) {
                Some(j2) => {
                    proof {
                        let p = parse_esc(s@, j as int + 1).unwrap();
                        let cur2 = parse_str_body(s@, j2 as int);
                        if cur2 is Some {
                            assert((acc_before + p.0) + cur2.unwrap().0 =~= acc_before + (p.0
                                + cur2.unwrap().0));
                        }
                    }
                    j = j2;
                },
                None => {
                    return None;
                },
            }
        } else if b < 0x20 {
            return None;
        } else {
            let ghost acc_before = acc@;
            acc.push(b);
            proof {
                let cur2 = parse_str_body(s@, j as int + 1);
                if cur2 is Some {
                    assert((acc_before + seq![b]) + cur2.unwrap().0 =~= acc_before + (seq![b]
                        + cur2.unwrap().0));
                }
                assert(acc@ =~= acc_before + seq![b]);
            }
            j = j + 1;
        }
    }
}

/// Parses the optional fraction and exponent parts starting at `i`.
fn parse_frac_exp_x(s: &[u8], i: usize) -> (r: Option<usize>)
    requires
        i <= s@.len(),
    ensures
        match r {
            Some(e) => parse_frac_exp(s@, i as int) == Some(e as int) && i <= e <= s@.len(),
            None => parse_frac_exp(s@, i as int) is None,
        },
{
    let jf: usize = if i < s.len() && s[i] == 0x2e {
        let j = scan_digits_x(s, i + 1);
        if j == i + 1 {
            return None;
        }
        j
    } else {
        i
    };
    if jf < s.len() && (s[jf] == 0x65 || s[jf] == 0x45) {
        let j0: usize = if jf + 1 < s.len() && (s[jf + 1] == 0x2b || s[jf + 1] == 0x2d) {
            jf + 2
        } else {
            jf + 1
        };
        let k = scan_digits_x(s, j0);
        if k == j0 {
            return None;
        }
        Some(k)
    } else {
        Some(jf)
    }
}

/// Parses a number starting at `i`.
fn parse_number_x(s: &[u8], i: usize) -> (r: Option<(JsonValue, usize)>)
    requires
        i <= s@.len(),
    ensures
        match r {
            Some(p) => parse_number(s@, i as int) == Some((p.0@, p.1 as int)) && i < p.1
                <= s@.len(),
            None => parse_number(s@, i as int) is None,
        },
{
    if i >= s.len() {
        return None;
    }
    let neg = s[i] == 0x2d;
    let i0: usize = if neg {
        i + 1
    } else {
        i
    };
    if i0 >= s.len() || s[i0] < 0x30 || s[i0] > 0x39 {
        return None;
    }
    let i1 = scan_digits_x(s, i0);
    proof {
        lemma_scan_digits_range(s@, i0 as int);
        lemma_scan_digits_range(s@, i0 as int + 1);
        assert(scan_digits(s@, i0 as int) == scan_digits(s@, i0 as int + 1));
        assert(i1 > i0);
    }
    if s[i0] == 0x30 && i1 > i0 + 1 {
        return None;
    }
    let end = match parse_frac_exp_x(s, i1) {
        Some(e) => e,
        None => {
            return None;
        },
    };
    if end != i1 {
        return Some((JsonValue::NumLit(copy_range(s, i, end)), end));
    }
    // plain integer digits: accumulate, watching for u64 overflow
    let mut acc: u64 = 0;
    let mut ovf = false;
    let mut j: usize = i0;
    while j < i1
        invariant
            i0 <= j <= i1 <= s@.len(),
            scan_digits(s@, i0 as int) == i1,
            forall|k: int| i0 <= k < i1 ==> is_digit(s@[k]),
            !ovf ==> acc as nat == digits_val(s@, i0 as int, j as int),
            ovf ==> digits_val(s@, i0 as int, j as int) > u64::MAX as nat,
        decreases i1 - j,
    {
        let d: u64 = (s[j] - 0x30) as u64;
        if !ovf {
            if acc > (u64::MAX - d) / 10 {
                proof {
                    let m = u64::MAX as nat;
                    assert(acc as nat * 10 + d as nat > m) by (nonlinear_arith)
                        requires
                            acc as nat > ((m - d as nat) as nat) / 10,
                            d as nat <= m,
                    ;
                }
                ovf = true;
            } else {
                proof {
                    let m = u64::MAX as nat;
                    assert(acc as nat * 10 + d as nat <= m) by (nonlinear_arith)
                        requires
                            acc as nat <= ((m - d as nat) as nat) / 10,
                            d as nat <= 9,
                            m == 18446744073709551615,
                    ;
                }
                acc = acc * 10 + d;
            }
        } else {
            proof {
                let v = digits_val(s@, i0 as int, j as int);
                assert(digits_val(s@, i0 as int, j as int + 1) == v * 10 + (s@[j as int]
                    - 0x30) as nat);
                assert(v * 10 >= v) by (nonlinear_arith)
                    requires
                        v >= 0,
                ;
            }
        }
        j = j + 1;
    }
    let v: JsonValue = if neg {
        if !ovf && acc <= 0x8000_0000_0000_0000u64 {
            JsonValue::Int((-(acc as i128)) as i64)
        } else {
            JsonValue::NumLit(copy_range(s, i, i1))
        }
    } else {
        if !ovf && acc <= 0x7fff_ffff_ffff_ffffu64 {
            JsonValue::Int(acc as i64)
        } else {
            JsonValue::NumLit(copy_range(s, i, i1))
        }
    };
    Some((v, i1))
}

/// A digit run found by `scan_digits` consists of digits.
pub(crate) proof fn lemma_scan_digits_range(s: Seq<u8>, i: int)
    ensures
        forall|k: int| i <= k < scan_digits(s, i) ==> is_digit(s[k]),
        i <= s.len() ==> i <= scan_digits(s, i) <= s.len(),
    decreases s.len() - i,
{
    if 0 <= i < s.len() && is_digit(s[i]) {
        lemma_scan_digits_range(s, i + 1);
    }
}

/// Parses the value starting at `i`, which must hold its first byte.
fn parse_value_x(s: &[u8], i: usize) -> (r: Option<(JsonValue, usize)>)
    requires
        i <= s@.len(),
    ensures
        match r {
            Some(p) => parse_value(s@, i as int) == Some((p.0@, p.1 as int)) && i < p.1
                <= s@.len(),
            None => parse_value(s@, i as int) is None,
        },
    decreases s@.len() - i, 0int,
{
    if i >= s.len() {
        return None;
    }
    let b = s[i];
    if b == 0x7b {
        let j = skip_ws_x(s, i + 1);
        match parse_members_x(s, j) {
            Some((members, e)) => Some((JsonValue::Obj(members), e)),
            None => None,
        }
    } else if b == 0x5b {
        let j = skip_ws_x(s, i + 1);
        match parse_items_x(s, j) {
            Some((items, e)) => Some((JsonValue::Arr(items), e)),
            None => None,
        }
    } else if b == 0x22 {
        match parse_str_body_x(s, i + 1) {
            Some((bs, e)) => Some((JsonValue::Str(bs), e)),
            None => None,
        }
    } else if b == 0x74 {
        if s.len() - i >= 4 && s[i + 1] == 0x72 && s[i + 2] == 0x75 && s[i + 3] == 0x65 {
            Some((JsonValue::Bool(true), i + 4))
        } else {
            None
        }
    } else if b == 0x66 {
        if s.len() - i >= 5 && s[i + 1] == 0x61 && s[i + 2] == 0x6c && s[i + 3] == 0x73 && s[i + 4]
            == 0x65 {
            Some((JsonValue::Bool(false), i + 5))
        } else {
            None
        }
    } else if b == 0x6e {
        if s.len() - i >= 4 && s[i + 1] == 0x75 && s[i + 2] == 0x6c && s[i + 3] == 0x6c {
            Some((JsonValue::Null, i + 4))
        } else {
            None
        }
    } else if b == 0x2d || (0x30 <= b && b <= 0x39) {
        parse_number_x(s, i)
    } else {
        None
    }
}

/// Parses the members of an object from `i` up to and including the
/// closing brace.
fn parse_members_x(s: &[u8], i: usize) -> (r: Option<(Vec<(Vec<u8>, JsonValue)>, usize)>)
    requires
        i <= s@.len(),
    ensures
        match r {
            Some(p) => parse_members(s@, i as int) == Some((members_view(p.0@), p.1 as int)) && i
                < p.1 <= s@.len(),
            None => parse_members(s@, i as int) is None,
        },
    decreases s@.len() - i, 1int,
{
    if i >= s.len() {
        return None;
    }
    if s[i] == 0x7d {
        proof {
            assert(members_view(Seq::<(Vec<u8>, JsonValue)>::empty()) =~= Seq::<(
                Seq<u8>,
                SpecJson,
            )>::empty());
        }
        return Some((Vec::new(), i + 1));
    }
    if s[i] != 0x22 {
        return None;
    }
    let (key, j) = match parse_str_body_x(s, i + 1) {
        Some(p) => p,
        None => {
            return None;
        },
    };
    let k = skip_ws_x(s, j);
    if !(k < s.len() && s[k] == 0x3a) {
        return None;
    }
    let m = skip_ws_x(s, k + 1);
    let (val, e) = match parse_value_x(s, m) {
        Some(p) => p,
        None => {
            return None;
        },
    };
    let p = skip_ws_x(s, e);
    if p < s.len() && s[p] == 0x7d {
        let mut members: Vec<(Vec<u8>, JsonValue)> = Vec::new();
        members.push((key, val));
        proof {
            lemma_members_view_index(members@);
            assert(members_view(members@) =~= seq![(members@[0].0@, members@[0].1@)]);
        }
        return Some((members, p + 1));
    }
    if !(p < s.len() && s[p] == 0x2c) {
        return None;
    }
    let q = skip_ws_x(s, p + 1);
    if !(q < s.len() && s[q] == 0x22) {
        return None;
    }
    let (mut rest, e2) = match parse_members_x(s, q) {
        Some(pr) => pr,
        None => {
            return None;
        },
    };
    let ghost rest_snap = rest@;
    rest.insert(0, (key, val));
    proof {
        lemma_members_view_index(rest@);
        lemma_members_view_index(rest_snap);
        assert(members_view(rest@) =~= seq![(rest@[0].0@, rest@[0].1@)] + members_view(rest_snap));
    }
    Some((rest, e2))
}

/// Parses the items of an array from `i` up to and including the closing
/// bracket.
fn parse_items_x(s: &[u8], i: usize) -> (r: Option<(Vec<JsonValue>, usize)>)
    requires
        i <= s@.len(),
    ensures
        match r {
            Some(p) => parse_items(s@, i as int) == Some((arr_view(p.0@), p.1 as int)) && i < p.1
                <= s@.len(),
            None => parse_items(s@, i as int) is None,
        },
    decreases s@.len() - i, 1int,
{
    if i >= s.len() {
        return None;
    }
    if s[i] == 0x5d {
        proof {
            assert(arr_view(Seq::<JsonValue>::empty()) =~= Seq::<SpecJson>::empty());
        }
        return Some((Vec::new(), i + 1));
    }
    let (val, e) = match parse_value_x(s, i) {
        Some(p) => p,
        None => {
            return None;
        },
    };
    let p = skip_ws_x(s, e);
    if p < s.len() && s[p] == 0x5d {
        let mut items: Vec<JsonValue> = Vec::new();
        items.push(val);
        proof {
            lemma_arr_view_index(items@);
            assert(arr_view(items@) =~= seq![items@[0]@]);
        }
        return Some((items, p + 1));
    }
    if !(p < s.len() && s[p] == 0x2c) {
        return None;
    }
    let q = skip_ws_x(s, p + 1);
    if !(q < s.len() && s[q] != 0x5d) {
        return None;
    }
    let (mut rest, e2) = match parse_items_x(s, q) {
        Some(pr) => pr,
        None => {
            return None;
        },
    };
    let ghost rest_snap = rest@;
    rest.insert(0, val);
    proof {
        lemma_arr_view_index(rest@);
        lemma_arr_view_index(rest_snap);
        assert(arr_view(rest@) =~= seq![rest@[0]@] + arr_view(rest_snap));
    }
    Some((rest, e2))
}

/// Parses a whole input as one JSON document surrounded by optional
/// whitespace.  Returns the document exactly when [`spec_parse_json`] says
/// the input is well-formed, and `None` exactly when it says it is not.
pub fn parse_json(s: &[u8]) -> (r: Option<JsonValue>)
    ensures
        match r {
            Some(v) => spec_parse_json(s@) == Some(v@),
            None => spec_parse_json(s@) is None,
        },
{
    let i = skip_ws_x(s, 0);
    match parse_value_x(s, i) {
        Some((v, j)) => {
            let k = skip_ws_x(s, j);
            if k == s.len() {
                Some(v)
            } else {
                None
            }
        },
        None => None,
    }
}


/// Reads the digit run `s[a..b)` as a `u64`, flagging overflow.
pub(crate) fn digits_to_u64(s: &[u8], a: usize, b: usize) -> (r: (u64, bool))
    requires
        a <= b <= s@.len(),
        forall|k: int| a <= k < b ==> is_digit(s@[k]),
    ensures
        !r.1 ==> r.0 as nat == digits_val(s@, a as int, b as int),
        r.1 ==> digits_val(s@, a as int, b as int) > u64::MAX as nat,
{
    let mut acc: u64 = 0;
    let mut ovf = false;
    let mut j: usize = a;
    while j < b
        invariant
            a <= j <= b <= s@.len(),
            forall|k: int| a <= k < b ==> is_digit(s@[k]),
            !ovf ==> acc as nat == digits_val(s@, a as int, j as int),
            ovf ==> digits_val(s@, a as int, j as int) > u64::MAX as nat,
        decreases b - j,
    {
        let d: u64 = (s[j] - 0x30) as u64;
        if !ovf {
            if acc > (u64::MAX - d) / 10 {
                proof {
                    let m = u64::MAX as nat;
                    assert(acc as nat * 10 + d as nat > m) by (nonlinear_arith)
                        requires
                            acc as nat > ((m - d as nat) as nat) / 10,
                            d as nat <= m,
                    ;
                }
                ovf = true;
            } else {
                proof {
                    let m = u64::MAX as nat;
                    assert(acc as nat * 10 + d as nat <= m) by (nonlinear_arith)
                        requires
                            acc as nat <= ((m - d as nat) as nat) / 10,
                            d as nat <= 9,
                            m == 18446744073709551615,
                    ;
                }
                acc = acc * 10 + d;
            }
        } else {
            proof {
                let v = digits_val(s@, a as int, j as int);
                assert(digits_val(s@, a as int, j as int + 1) == v * 10 + (s@[j as int]
                    - 0x30) as nat);
                assert(v * 10 >= v) by (nonlinear_arith)
                    requires
                        v >= 0,
                ;
            }
        }
        j = j + 1;
    }
    (acc, ovf)
}

} // verus!

