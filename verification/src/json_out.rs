//! Canonical JSON serialization.
//!
//! [`ser_json`] defines, byte for byte, the canonical encoding of a
//! [`SpecJson`] document: no whitespace, integers in plain decimal, strings
//! quoted with the conventional short escapes (and `\u00XX` for the other
//! control bytes), array items and object members separated by commas in
//! their stored order.  [`write_json`] and [`to_json_bytes`] produce exactly
//! that encoding.

use vstd::prelude::*;

use crate::json::{arr_view, lemma_arr_view_index, lemma_members_view_index, JsonValue, SpecJson};

verus! {

broadcast use vstd::std_specs::vec::axiom_vec_index_decreases;

/// Decimal digits of `n`, most significant first.
pub open spec fn dec_digits(n: nat) -> Seq<u8>
    decreases n,
{
    if n < 10 {
        seq![(48 + n) as u8]
    } else {
        dec_digits(n / 10) + seq![(48 + n % 10) as u8]
    }
}

/// Canonical decimal encoding of the integer `n`.
pub open spec fn ser_int(n: int) -> Seq<u8> {
    if n < 0 {
        seq![45u8] + dec_digits((-n) as nat)
    } else {
        dec_digits(n as nat)
    }
}

/// The lower-case hexadecimal digit for `v < 16`.
pub open spec fn hex_digit(v: nat) -> u8 {
    if v < 10 {
        (48 + v) as u8
    } else {
        (87 + v) as u8
    }
}

/// The encoding of one string byte: a short escape, a `\u00XX` escape for
/// other control bytes, or the byte itself.
pub open spec fn esc_byte(b: u8) -> Seq<u8> {
    if b == 0x22 {
        seq![0x5cu8, 0x22u8]
    } else if b == 0x5c {
        seq![0x5cu8, 0x5cu8]
    } else if b == 0x08 {
        seq![0x5cu8, 0x62u8]
    } else if b == 0x0c {
        seq![0x5cu8, 0x66u8]
    } else if b == 0x0a {
        seq![0x5cu8, 0x6eu8]
    } else if b == 0x0d {
        seq![0x5cu8, 0x72u8]
    } else if b == 0x09 {
        seq![0x5cu8, 0x74u8]
    } else if b < 0x20 {
        seq![0x5cu8, 0x75u8, 0x30u8, 0x30u8, hex_digit((b / 16) as nat), hex_digit((b % 16) as nat)]
    } else {
        seq![b]
    }
}

/// The escaped form of a whole string body.
pub open spec fn esc_bytes(s: Seq<u8>) -> Seq<u8>
    decreases s.len(),
{
    if s.len() == 0 {
        Seq::empty()
    } else {
        esc_bytes(s.subrange(0, s.len() - 1)) + esc_byte(s[s.len() - 1])
    }
}

/// The canonical byte encoding of a JSON document.
pub open spec fn ser_json(v: SpecJson) -> Seq<u8>
    decreases v, 1int,
{
    match v {
        SpecJson::Null => seq![0x6eu8, 0x75u8, 0x6cu8, 0x6cu8],
        SpecJson::Bool(b) => if b {
            seq![0x74u8, 0x72u8, 0x75u8, 0x65u8]
        } else {
            seq![0x66u8, 0x61u8, 0x6cu8, 0x73u8, 0x65u8]
        },
        SpecJson::Int(n) => ser_int(n as int),
        SpecJson::NumLit(t) => t,
        SpecJson::Str(s) => seq![0x22u8] + esc_bytes(s) + seq![0x22u8],
        SpecJson::Arr(items) => seq![0x5bu8] + ser_items(items) + seq![0x5du8],
        SpecJson::Obj(members) => seq![0x7bu8] + ser_members(members) + seq![0x7du8],
    }
}

/// The comma-separated encodings of array items.
pub open spec fn ser_items(items: Seq<SpecJson>) -> Seq<u8>
    decreases items, 0int,
{
    if items.len() == 0 {
        Seq::empty()
    } else if items.len() == 1 {
        ser_json(items[0])
    } else {
        ser_items(items.subrange(0, items.len() - 1)) + seq![0x2cu8] + ser_json(
            items[items.len() - 1],
        )
    }
}

/// The comma-separated encodings of object members, each
/// `"key":value`.
pub open spec fn ser_members(members: Seq<(Seq<u8>, SpecJson)>) -> Seq<u8>
    decreases members, 0int,
{
    if members.len() == 0 {
        Seq::empty()
    } else if members.len() == 1 {
        seq![0x22u8] + esc_bytes(members[0].0) + seq![0x22u8, 0x3au8] + ser_json(members[0].1)
    } else {
        ser_members(members.subrange(0, members.len() - 1)) + seq![0x2cu8] + seq![0x22u8]
            + esc_bytes(members[members.len() - 1].0) + seq![0x22u8, 0x3au8] + ser_json(
            members[members.len() - 1].1,
        )
    }
}

/// Appends the bytes of `s` to `out`.
pub fn push_bytes(s: &[u8], out: &mut Vec<u8>)
    ensures
        final(out)@ == old(out)@ + s@,
{
    let mut i: usize = 0;
    proof {
        assert(out@ =~= old(out)@ + s@.take(0));
    }
    while i < s.len()
        invariant
            i <= s.len(),
            out@ == old(out)@ + s@.take(i as int),
        decreases s.len() - i,
    {
        out.push(s[i]);
        proof {
            assert(out@ =~= old(out)@ + s@.take(i as int + 1));
        }
        i = i + 1;
    }
    proof {
        assert(s@.take(s@.len() as int) =~= s@);
    }
}

/// Appends the decimal digits of `m` to `out`.
pub fn write_u64_digits(m: u64, out: &mut Vec<u8>)
    ensures
        final(out)@ == old(out)@ + dec_digits(m as nat),
    decreases m,
{
    if m < 10 {
        out.push(48u8 + m as u8);
        proof {
            assert(out@ =~= old(out)@ + dec_digits(m as nat));
        }
    } else {
        write_u64_digits(m / 10, out);
        out.push(48u8 + (m % 10) as u8);
        proof {
            assert(out@ =~= old(out)@ + dec_digits(m as nat));
        }
    }
}

/// Appends the canonical decimal encoding of `n` to `out`.
pub fn write_int(n: i64, out: &mut Vec<u8>)
    ensures
        final(out)@ == old(out)@ + ser_int(n as int),
{
    if n < 0 {
        out.push(0x2d);
        let m: u64 = (-(n as i128)) as u64;
        proof {
            assert(m as nat == (-(n as int)) as nat);
        }
        write_u64_digits(m, out);
        proof {
            assert(out@ =~= old(out)@ + ser_int(n as int));
        }
    } else {
        write_u64_digits(n as u64, out);
    }
}

/// Appends the encoding of one string byte to `out`.
fn write_esc_byte(b: u8, out: &mut Vec<u8>)
    ensures
        final(out)@ == old(out)@ + esc_byte(b),
{
    if b == 0x22 {
        out.push(0x5c);
        out.push(0x22);
    } else if b == 0x5c {
        out.push(0x5c);
        out.push(0x5c);
    } else if b == 0x08 {
        out.push(0x5c);
        out.push(0x62);
    } else if b == 0x0c {
        out.push(0x5c);
        out.push(0x66);
    } else if b == 0x0a {
        out.push(0x5c);
        out.push(0x6e);
    } else if b == 0x0d {
        out.push(0x5c);
        out.push(0x72);
    } else if b == 0x09 {
        out.push(0x5c);
        out.push(0x74);
    } else if b < 0x20 {
        out.push(0x5c);
        out.push(0x75);
        out.push(0x30);
        out.push(0x30);
        let hi: u8 = b / 16;
        let lo: u8 = b % 16;
        out.push(if hi < 10 { 48 + hi } else { 87 + hi });
        out.push(if lo < 10 { 48 + lo } else { 87 + lo });
    } else {
        out.push(b);
    }
    proof {
        assert(out@ =~= old(out)@ + esc_byte(b));
    }
}

/// Appends the escaped form of a whole string body to `out`.
pub fn write_escaped(s: &[u8], out: &mut Vec<u8>)
    ensures
        final(out)@ == old(out)@ + esc_bytes(s@),
{
    let mut i: usize = 0;
    proof {
        assert(esc_bytes(s@.take(0)) =~= Seq::<u8>::empty());
        assert(out@ =~= old(out)@ + esc_bytes(s@.take(0)));
    }
    while i < s.len()
        invariant
            i <= s.len(),
            out@ == old(out)@ + esc_bytes(s@.take(i as int)),
        decreases s.len() - i,
    {
        write_esc_byte(s[i], out);
        proof {
            let t = s@.take(i as int + 1);
            assert(t.subrange(0, t.len() - 1) =~= s@.take(i as int));
            assert(t[t.len() - 1] == s@[i as int]);
            assert(out@ =~= old(out)@ + esc_bytes(s@.take(i as int + 1)));
        }
        i = i + 1;
    }
    proof {
        assert(s@.take(s@.len() as int) =~= s@);
    }
}

/// Appends the canonical encoding of `v` to `out`.
pub fn write_json(v: &JsonValue, out: &mut Vec<u8>)
    ensures
        final(out)@ == old(out)@ + ser_json(v@),
    decreases v,
{
    match v {
        JsonValue::Null => {
            out.push(0x6e);
            out.push(0x75);
            out.push(0x6c);
            out.push(0x6c);
            proof {
                assert(out@ =~= old(out)@ + ser_json(v@));
            }
        },
        JsonValue::Bool(b) => {
            if *b {
                out.push(0x74);
                out.push(0x72);
                out.push(0x75);
                out.push(0x65);
            } else {
                out.push(0x66);
                out.push(0x61);
                out.push(0x6c);
                out.push(0x73);
                out.push(0x65);
            }
            proof {
                assert(out@ =~= old(out)@ + ser_json(v@));
            }
        },
        JsonValue::Int(n) => {
            write_int(*n, out);
        },
        JsonValue::NumLit(t) => {
            push_bytes(t.as_slice(), out);
        },
        JsonValue::Str(s) => {
            out.push(0x22);
            write_escaped(s.as_slice(), out);
            out.push(0x22);
            proof {
                assert(out@ =~= old(out)@ + ser_json(v@));
            }
        },
        JsonValue::Arr(items) => {
            proof {
                assert(decreases_to!(*v => *items));
            }
            write_arr(items, out);
            proof {
                assert(out@ =~= old(out)@ + ser_json(v@));
            }
        },
        JsonValue::Obj(members) => {
            proof {
                assert(decreases_to!(*v => *members));
            }
            write_obj(members, out);
            proof {
                assert(out@ =~= old(out)@ + ser_json(v@));
            }
        },
    }
}

/// Appends the canonical encoding of an array value to `out`.
fn write_arr(items: &Vec<JsonValue>, out: &mut Vec<u8>)
    ensures
        final(out)@ == old(out)@ + seq![0x5bu8] + ser_items(arr_view(items@)) + seq![0x5du8],
    decreases *items,
{
    let ghost iv = arr_view(items@);
    proof {
        lemma_arr_view_index(items@);
    }
    out.push(0x5b);
    let ghost opened = out@;
    proof {
        assert(ser_items(iv.take(0)) =~= Seq::<u8>::empty());
        assert(out@ =~= opened + ser_items(iv.take(0)));
    }
    let mut i: usize = 0;
    while i < items.len()
        invariant
            i <= items.len(),
            iv == arr_view(items@),
            iv.len() == items@.len(),
            forall|k: int| 0 <= k < iv.len() ==> iv[k] == items@[k]@,
            out@ == opened + ser_items(iv.take(i as int)),
            opened == old(out)@ + seq![0x5bu8],
        decreases items.len() - i,
    {
        if i > 0 {
            out.push(0x2c);
        }
        proof {
            assert(decreases_to!(*items => items[i as int]));
        }
        write_json(&items[i], out);
        proof {
            let t = iv.take(i as int + 1);
            if i == 0 {
                assert(ser_items(t) == ser_json(iv[0]));
            } else {
                assert(t.subrange(0, t.len() - 1) =~= iv.take(i as int));
                assert(t[t.len() - 1] == iv[i as int]);
            }
            assert(out@ =~= opened + ser_items(iv.take(i as int + 1)));
        }
        i = i + 1;
    }
    proof {
        assert(iv.take(iv.len() as int) =~= iv);
    }
    out.push(0x5d);
    proof {
        assert(out@ =~= old(out)@ + seq![0x5bu8] + ser_items(arr_view(items@)) + seq![0x5du8]);
    }
}

/// Appends the canonical encoding of an object value to `out`.
fn write_obj(members: &Vec<(Vec<u8>, JsonValue)>, out: &mut Vec<u8>)
    ensures
        final(out)@ == old(out)@ + seq![0x7bu8] + ser_members(crate::json::members_view(members@))
            + seq![0x7du8],
    decreases *members,
{
    let ghost mv = crate::json::members_view(members@);
    proof {
        lemma_members_view_index(members@);
    }
    out.push(0x7b);
    let ghost opened = out@;
    proof {
        assert(ser_members(mv.take(0)) =~= Seq::<u8>::empty());
        assert(out@ =~= opened + ser_members(mv.take(0)));
    }
    let mut i: usize = 0;
    while i < members.len()
        invariant
            i <= members.len(),
            mv == crate::json::members_view(members@),
            mv.len() == members@.len(),
            forall|k: int| 0 <= k < mv.len() ==> mv[k] == (members@[k].0@, members@[k].1@),
            out@ == opened + ser_members(mv.take(i as int)),
            opened == old(out)@ + seq![0x7bu8],
        decreases members.len() - i,
    {
        if i > 0 {
            out.push(0x2c);
        }
        out.push(0x22);
        write_escaped(members[i].0.as_slice(), out);
        out.push(0x22);
        out.push(0x3a);
        proof {
            assert(decreases_to!(*members => members[i as int]));
            assert(decreases_to!(members[i as int] => members[i as int].1));
        }
        write_json(&members[i].1, out);
        proof {
            let t = mv.take(i as int + 1);
            if i > 0 {
                assert(t.subrange(0, t.len() - 1) =~= mv.take(i as int));
                assert(t[t.len() - 1] == mv[i as int]);
            }
            assert(out@ =~= opened + ser_members(mv.take(i as int + 1)));
        }
        i = i + 1;
    }
    proof {
        assert(mv.take(mv.len() as int) =~= mv);
    }
    out.push(0x7d);
    proof {
        assert(out@ =~= old(out)@ + seq![0x7bu8] + ser_members(crate::json::members_view(members@))
            + seq![0x7du8]);
    }
}

/// The canonical encoding of `v`, as a fresh byte vector.
pub fn to_json_bytes(v: &JsonValue) -> (out: Vec<u8>)
    ensures
        out@ == ser_json(v@),
{
    let mut out: Vec<u8> = Vec::new();
    write_json(v, &mut out);
    out
}

} // verus!
