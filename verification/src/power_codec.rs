//! Default-aware JSON encoding and decoding of power-levels content.
//!
//! Encoding omits every field equal to its protocol default and writes the
//! remaining fields in their declared order, numeric values always in the
//! canonical numeric form.  Decoding reconstructs absent fields from their
//! defaults, ignores unknown fields, and accepts the legacy wire form in
//! which a numeric field was written as a decimal string — that acceptance
//! is one-directional, the canonical numeric form alone is written out.
//! [`spl_to_json`] and [`spl_of_json`] state both directions exactly at the
//! document level.

use vstd::prelude::*;

use crate::json::{members_view, obj_view, obj_get, lemma_members_view_index, JsonValue, SpecJson};
use crate::json_parse::{scan_digits, digits_val, copy_range, scan_digits_x, digits_to_u64,
    lemma_scan_digits_range};
use crate::power_levels::{pairs_view, is_default_power_level, LevelMap, NotificationPowerLevels,
    RoomPowerLevelsEventContent, SpecPowerLevels};

verus! {

broadcast use crate::json::lemma_members_view_push;

/// The bytes of the field name `ban`.
pub open spec fn k_ban() -> Seq<u8> {
    seq![98u8, 97u8, 110u8]
}

/// The field name `ban`, as fresh key bytes.
fn key_ban() -> (v: Vec<u8>)
    ensures
        v@ == k_ban(),
{
    let mut v: Vec<u8> = Vec::new();
    v.push(98u8);
    v.push(97u8);
    v.push(110u8);
    proof {
        assert(v@ =~= k_ban());
    }
    v
}

/// The bytes of the field name `events`.
pub open spec fn k_events() -> Seq<u8> {
    seq![101u8, 118u8, 101u8, 110u8, 116u8, 115u8]
}

/// The field name `events`, as fresh key bytes.
fn key_events() -> (v: Vec<u8>)
    ensures
        v@ == k_events(),
{
    let mut v: Vec<u8> = Vec::new();
    v.push(101u8);
    v.push(118u8);
    v.push(101u8);
    v.push(110u8);
    v.push(116u8);
    v.push(115u8);
    proof {
        assert(v@ =~= k_events());
    }
    v
}

/// The bytes of the field name `events_default`.
pub open spec fn k_events_default() -> Seq<u8> {
    seq![101u8, 118u8, 101u8, 110u8, 116u8, 115u8, 95u8, 100u8, 101u8, 102u8, 97u8, 117u8, 108u8, 116u8]
}

/// The field name `events_default`, as fresh key bytes.
fn key_events_default() -> (v: Vec<u8>)
    ensures
        v@ == k_events_default(),
{
    let mut v: Vec<u8> = Vec::new();
    v.push(101u8);
    v.push(118u8);
    v.push(101u8);
    v.push(110u8);
    v.push(116u8);
    v.push(115u8);
    v.push(95u8);
    v.push(100u8);
    v.push(101u8);
    v.push(102u8);
    v.push(97u8);
    v.push(117u8);
    v.push(108u8);
    v.push(116u8);
    proof {
        assert(v@ =~= k_events_default());
    }
    v
}

/// The bytes of the field name `invite`.
pub open spec fn k_invite() -> Seq<u8> {
    seq![105u8, 110u8, 118u8, 105u8, 116u8, 101u8]
}

/// The field name `invite`, as fresh key bytes.
fn key_invite() -> (v: Vec<u8>)
    ensures
        v@ == k_invite(),
{
    let mut v: Vec<u8> = Vec::new();
    v.push(105u8);
    v.push(110u8);
    v.push(118u8);
    v.push(105u8);
    v.push(116u8);
    v.push(101u8);
    proof {
        assert(v@ =~= k_invite());
    }
    v
}

/// The bytes of the field name `kick`.
pub open spec fn k_kick() -> Seq<u8> {
    seq![107u8, 105u8, 99u8, 107u8]
}

/// The field name `kick`, as fresh key bytes.
fn key_kick() -> (v: Vec<u8>)
    ensures
        v@ == k_kick(),
{
    let mut v: Vec<u8> = Vec::new();
    v.push(107u8);
    v.push(105u8);
    v.push(99u8);
    v.push(107u8);
    proof {
        assert(v@ =~= k_kick());
    }
    v
}

/// The bytes of the field name `redact`.
pub open spec fn k_redact() -> Seq<u8> {
    seq![114u8, 101u8, 100u8, 97u8, 99u8, 116u8]
}

/// The field name `redact`, as fresh key bytes.
fn key_redact() -> (v: Vec<u8>)
    ensures
        v@ == k_redact(),
{
    let mut v: Vec<u8> = Vec::new();
    v.push(114u8);
    v.push(101u8);
    v.push(100u8);
    v.push(97u8);
    v.push(99u8);
    v.push(116u8);
    proof {
        assert(v@ =~= k_redact());
    }
    v
}

/// The bytes of the field name `state_default`.
pub open spec fn k_state_default() -> Seq<u8> {
    seq![115u8, 116u8, 97u8, 116u8, 101u8, 95u8, 100u8, 101u8, 102u8, 97u8, 117u8, 108u8, 116u8]
}

/// The field name `state_default`, as fresh key bytes.
fn key_state_default() -> (v: Vec<u8>)
    ensures
        v@ == k_state_default(),
{
    let mut v: Vec<u8> = Vec::new();
    v.push(115u8);
    v.push(116u8);
    v.push(97u8);
    v.push(116u8);
    v.push(101u8);
    v.push(95u8);
    v.push(100u8);
    v.push(101u8);
    v.push(102u8);
    v.push(97u8);
    v.push(117u8);
    v.push(108u8);
    v.push(116u8);
    proof {
        assert(v@ =~= k_state_default());
    }
    v
}

/// The bytes of the field name `users`.
pub open spec fn k_users() -> Seq<u8> {
    seq![117u8, 115u8, 101u8, 114u8, 115u8]
}

/// The field name `users`, as fresh key bytes.
fn key_users() -> (v: Vec<u8>)
    ensures
        v@ == k_users(),
{
    let mut v: Vec<u8> = Vec::new();
    v.push(117u8);
    v.push(115u8);
    v.push(101u8);
    v.push(114u8);
    v.push(115u8);
    proof {
        assert(v@ =~= k_users());
    }
    v
}

/// The bytes of the field name `users_default`.
pub open spec fn k_users_default() -> Seq<u8> {
    seq![117u8, 115u8, 101u8, 114u8, 115u8, 95u8, 100u8, 101u8, 102u8, 97u8, 117u8, 108u8, 116u8]
}

/// The field name `users_default`, as fresh key bytes.
fn key_users_default() -> (v: Vec<u8>)
    ensures
        v@ == k_users_default(),
{
    let mut v: Vec<u8> = Vec::new();
    v.push(117u8);
    v.push(115u8);
    v.push(101u8);
    v.push(114u8);
    v.push(115u8);
    v.push(95u8);
    v.push(100u8);
    v.push(101u8);
    v.push(102u8);
    v.push(97u8);
    v.push(117u8);
    v.push(108u8);
    v.push(116u8);
    proof {
        assert(v@ =~= k_users_default());
    }
    v
}

/// The bytes of the field name `notifications`.
pub open spec fn k_notifications() -> Seq<u8> {
    seq![110u8, 111u8, 116u8, 105u8, 102u8, 105u8, 99u8, 97u8, 116u8, 105u8, 111u8, 110u8, 115u8]
}

/// The field name `notifications`, as fresh key bytes.
fn key_notifications() -> (v: Vec<u8>)
    ensures
        v@ == k_notifications(),
{
    let mut v: Vec<u8> = Vec::new();
    v.push(110u8);
    v.push(111u8);
    v.push(116u8);
    v.push(105u8);
    v.push(102u8);
    v.push(105u8);
    v.push(99u8);
    v.push(97u8);
    v.push(116u8);
    v.push(105u8);
    v.push(111u8);
    v.push(110u8);
    v.push(115u8);
    proof {
        assert(v@ =~= k_notifications());
    }
    v
}

/// The bytes of the field name `room`.
pub open spec fn k_room() -> Seq<u8> {
    seq![114u8, 111u8, 111u8, 109u8]
}

/// The field name `room`, as fresh key bytes.
fn key_room() -> (v: Vec<u8>)
    ensures
        v@ == k_room(),
{
    let mut v: Vec<u8> = Vec::new();
    v.push(114u8);
    v.push(111u8);
    v.push(111u8);
    v.push(109u8);
    proof {
        assert(v@ =~= k_room());
    }
    v
}

/// The integer a decimal string denotes: an optional sign, then digits
/// only, valued within `i64`.  This is the legacy wire form of a numeric
/// field.
pub open spec fn str_int(s: Seq<u8>) -> Option<i64> {
    if s.len() == 0 {
        None
    } else {
        let neg = s[0] == 0x2d;
        let i0: int = if s[0] == 0x2d || s[0] == 0x2b {
            1
        } else {
            0
        };
        if i0 >= s.len() {
            None
        } else if scan_digits(s, i0) != s.len() {
            None
        } else {
            let v = digits_val(s, i0, s.len() as int) as int;
            if neg {
                if v <= 0x8000_0000_0000_0000 {
                    Some((-v) as i64)
                } else {
                    None
                }
            } else {
                if v <= 0x7fff_ffff_ffff_ffff {
                    Some(v as i64)
                } else {
                    None
                }
            }
        }
    }
}

/// The level a document value denotes: a number, or the legacy decimal
/// string.
pub open spec fn int_of_json(v: SpecJson) -> Option<i64> {
    match v {
        SpecJson::Int(n) => Some(n),
        SpecJson::Str(s) => str_int(s),
        _ => None,
    }
}

/// The level the member `key` of an object denotes, with `dflt` where the
/// member is absent.
pub open spec fn field_int(ms: Seq<(Seq<u8>, SpecJson)>, key: Seq<u8>, dflt: i64) -> Option<i64> {
    match crate::json::spec_obj_get(ms, key) {
        None => Some(dflt),
        Some(j) => int_of_json(j),
    }
}

/// The level mapping an object's members denote, pair by pair in order.
pub open spec fn levels_of_json(ms: Seq<(Seq<u8>, SpecJson)>) -> Option<Seq<(Seq<u8>, i64)>>
    decreases ms.len(),
{
    if ms.len() == 0 {
        Some(Seq::empty())
    } else {
        match int_of_json(ms[0].1) {
            None => None,
            Some(n) => match levels_of_json(ms.drop_first()) {
                None => None,
                Some(rest) => Some(seq![(ms[0].0, n)] + rest),
            },
        }
    }
}

/// The level mapping the member `key` of an object denotes, empty where
/// the member is absent.
pub open spec fn field_levels(ms: Seq<(Seq<u8>, SpecJson)>, key: Seq<u8>) -> Option<
    Seq<(Seq<u8>, i64)>,
> {
    match crate::json::spec_obj_get(ms, key) {
        None => Some(Seq::empty()),
        Some(SpecJson::Obj(mm)) => levels_of_json(mm),
        Some(_) => None,
    }
}

/// The `room` notification level the `notifications` member denotes, 0
/// where the member (or its `room` field) is absent.
pub open spec fn field_notifications(ms: Seq<(Seq<u8>, SpecJson)>) -> Option<i64> {
    match crate::json::spec_obj_get(ms, k_notifications()) {
        None => Some(0),
        Some(SpecJson::Obj(mm)) => field_int(mm, k_room(), 0),
        Some(_) => None,
    }
}

/// The power-levels content a document denotes, if it is an object whose
/// known members are well-formed.  Unknown members are ignored.
pub open spec fn spl_of_json(v: SpecJson) -> Option<SpecPowerLevels> {
    match v {
        SpecJson::Obj(ms) => match (
            field_int(ms, k_ban(), 50),
            field_levels(ms, k_events()),
            field_int(ms, k_events_default(), 0),
            field_int(ms, k_invite(), 0),
            field_int(ms, k_kick(), 50),
        ) {
            (Some(ban), Some(events), Some(events_default), Some(invite), Some(kick)) => match (
                field_int(ms, k_redact(), 50),
                field_int(ms, k_state_default(), 50),
                field_levels(ms, k_users()),
                field_int(ms, k_users_default(), 0),
                field_notifications(ms),
            ) {
                (
                    Some(redact),
                    Some(state_default),
                    Some(users),
                    Some(users_default),
                    Some(room),
                ) => Some(
                    SpecPowerLevels {
                        ban,
                        events,
                        events_default,
                        invite,
                        kick,
                        redact,
                        state_default,
                        users,
                        users_default,
                        notifications_room: room,
                    },
                ),
                _ => None,
            },
            _ => None,
        },
        _ => None,
    }
}

/// The object members encoding a level mapping, pair by pair in order.
pub open spec fn levels_to_json(lv: Seq<(Seq<u8>, i64)>) -> Seq<(Seq<u8>, SpecJson)> {
    Seq::new(lv.len(), |i: int| (lv[i].0, SpecJson::Int(lv[i].1)))
}

/// The encoding of one numeric field: nothing when it holds its default.
pub open spec fn seg_int(key: Seq<u8>, val: i64, dflt: i64) -> Seq<(Seq<u8>, SpecJson)> {
    if val == dflt {
        Seq::empty()
    } else {
        seq![(key, SpecJson::Int(val))]
    }
}

/// The encoding of one mapping field: nothing when it is empty.
pub open spec fn seg_levels(key: Seq<u8>, lv: Seq<(Seq<u8>, i64)>) -> Seq<(Seq<u8>, SpecJson)> {
    if lv.len() == 0 {
        Seq::empty()
    } else {
        seq![(key, SpecJson::Obj(levels_to_json(lv)))]
    }
}

/// The encoding of the `notifications` field: nothing when it is
/// all-default.
pub open spec fn seg_notifications(room: i64) -> Seq<(Seq<u8>, SpecJson)> {
    if room == 0 {
        Seq::empty()
    } else {
        seq![(k_notifications(), SpecJson::Obj(seq![(k_room(), SpecJson::Int(room))]))]
    }
}

/// The members of the encoding of a power-levels content, in declared
/// field order, defaults omitted.
pub open spec fn spl_members(c: SpecPowerLevels) -> Seq<(Seq<u8>, SpecJson)> {
    seg_int(k_ban(), c.ban, 50) + seg_levels(k_events(), c.events) + seg_int(
        k_events_default(),
        c.events_default,
        0,
    ) + seg_int(k_invite(), c.invite, 0) + seg_int(k_kick(), c.kick, 50) + seg_int(
        k_redact(),
        c.redact,
        50,
    ) + seg_int(k_state_default(), c.state_default, 50) + seg_levels(k_users(), c.users)
        + seg_int(k_users_default(), c.users_default, 0) + seg_notifications(
        c.notifications_room,
    )
}

/// The document encoding a power-levels content.
pub open spec fn spl_to_json(c: SpecPowerLevels) -> SpecJson {
    SpecJson::Obj(spl_members(c))
}

/// Parses the legacy decimal-string form of a level.
fn str_int_x(s: &[u8]) -> (r: Option<i64>)
    ensures
        r == str_int(s@),
{
    if s.len() == 0 {
        return None;
    }
    let neg = s[0] == 0x2d;
    let i0: usize = if s[0] == 0x2d || s[0] == 0x2b {
        1
    } else {
        0
    };
    if i0 >= s.len() {
        return None;
    }
    let sd = scan_digits_x(s, i0);
    if sd != s.len() {
        return None;
    }
    proof {
        lemma_scan_digits_range(s@, i0 as int);
    }
    let (acc, ovf) = digits_to_u64(s, i0, s.len());
    if neg {
        if !ovf && acc <= 0x8000_0000_0000_0000u64 {
            Some((-(acc as i128)) as i64)
        } else {
            None
        }
    } else {
        if !ovf && acc <= 0x7fff_ffff_ffff_ffffu64 {
            Some(acc as i64)
        } else {
            None
        }
    }
}

/// Reads a level from a document value, accepting the legacy string form.
fn int_from_json(j: &JsonValue) -> (r: Option<i64>)
    ensures
        r == int_of_json(j@),
{
    match j {
        JsonValue::Int(n) => Some(*n),
        JsonValue::Str(s) => str_int_x(s.as_slice()),
        _ => None,
    }
}

/// Reads the numeric member `key`, with `dflt` where it is absent.
fn field_int_x(members: &Vec<(Vec<u8>, JsonValue)>, key: &[u8], dflt: i64) -> (r: Option<i64>)
    ensures
        r == field_int(obj_view(members), key@, dflt),
{
    match obj_get(members, key) {
        None => Some(dflt),
        Some(j) => int_from_json(j),
    }
}

/// Reads the level pairs of `mm` from position `idx` on.
fn levels_from(mm: &Vec<(Vec<u8>, JsonValue)>, idx: usize) -> (r: Option<LevelMap>)
    requires
        idx <= mm@.len(),
    ensures
        match r {
            Some(lv) => levels_of_json(obj_view(mm).skip(idx as int)) == Some(pairs_view(lv@)),
            None => levels_of_json(obj_view(mm).skip(idx as int)) is None,
        },
    decreases mm@.len() - idx,
{
    proof {
        lemma_members_view_index(mm@);
    }
    let ghost ms = obj_view(mm).skip(idx as int);
    if idx == mm.len() {
        proof {
            assert(ms.len() == 0);
            assert(pairs_view(Seq::<(Vec<u8>, i64)>::empty()) =~= Seq::<(Seq<u8>, i64)>::empty());
        }
        return Some(Vec::new());
    }
    proof {
        assert(ms[0] == obj_view(mm)[idx as int]);
        assert(ms.drop_first() =~= obj_view(mm).skip(idx as int + 1));
    }
    let n = match int_from_json(&mm[idx].1) {
        Some(n) => n,
        None => {
            return None;
        },
    };
    let mut rest = match levels_from(mm, idx + 1) {
        Some(r) => r,
        None => {
            return None;
        },
    };
    let key = copy_range(mm[idx].0.as_slice(), 0, mm[idx].0.len());
    let ghost rest_snap = rest@;
    rest.insert(0, (key, n));
    proof {
        assert(key@ =~= mm@[idx as int].0@);
        assert(rest@ =~= seq![(key, n)] + rest_snap);
        assert forall|k: int| 0 <= k < rest@.len() implies pairs_view(rest@)[k] == (seq![
            (mm@[idx as int].0@, n),
        ] + pairs_view(rest_snap))[k] by {
            if k > 0 {
                assert(rest@[k] == rest_snap[k - 1]);
            }
        }
        assert(pairs_view(rest@) =~= seq![(mm@[idx as int].0@, n)] + pairs_view(rest_snap));
    }
    Some(rest)
}

/// Reads the mapping member `key`, empty where it is absent.
fn field_levels_x(members: &Vec<(Vec<u8>, JsonValue)>, key: &[u8]) -> (r: Option<LevelMap>)
    ensures
        match r {
            Some(lv) => field_levels(obj_view(members), key@) == Some(pairs_view(lv@)),
            None => field_levels(obj_view(members), key@) is None,
        },
{
    match obj_get(members, key) {
        None => {
            proof {
                assert(pairs_view(Seq::<(Vec<u8>, i64)>::empty()) =~= Seq::<(
                    Seq<u8>,
                    i64,
                )>::empty());
            }
            Some(Vec::new())
        },
        Some(j) => match j {
            JsonValue::Obj(mm) => {
                proof {
                    assert(obj_view(mm).skip(0) =~= obj_view(mm));
                }
                levels_from(mm, 0)
            },
            _ => None,
        },
    }
}

/// Reads the `notifications` member, all-default where it is absent.
fn field_notifications_x(members: &Vec<(Vec<u8>, JsonValue)>) -> (r: Option<i64>)
    ensures
        r == field_notifications(obj_view(members)),
{
    let kn = key_notifications();
    match obj_get(members, kn.as_slice()) {
        None => Some(0),
        Some(j) => match j {
            JsonValue::Obj(mm) => {
                let kr = key_room();
                field_int_x(mm, kr.as_slice(), 0)
            },
            _ => None,
        },
    }
}

/// Decodes a power-levels content from a document: exactly what
/// [`spl_of_json`] says the document denotes, or `None` exactly when it
/// says the document is malformed.
pub fn power_levels_from_json(v: &JsonValue) -> (r: Option<RoomPowerLevelsEventContent>)
    ensures
        match r {
            Some(c) => spl_of_json(v@) == Some(c@),
            None => spl_of_json(v@) is None,
        },
{
    let members = match v {
        JsonValue::Obj(members) => members,
        _ => {
            return None;
        },
    };
    let kb = key_ban();
    let ban = match field_int_x(members, kb.as_slice(), 50) {
        Some(x) => x,
        None => {
            return None;
        },
    };
    let ke = key_events();
    let events = match field_levels_x(members, ke.as_slice()) {
        Some(x) => x,
        None => {
            return None;
        },
    };
    let ked = key_events_default();
    let events_default = match field_int_x(members, ked.as_slice(), 0) {
        Some(x) => x,
        None => {
            return None;
        },
    };
    let ki = key_invite();
    let invite = match field_int_x(members, ki.as_slice(), 0) {
        Some(x) => x,
        None => {
            return None;
        },
    };
    let kk = key_kick();
    let kick = match field_int_x(members, kk.as_slice(), 50) {
        Some(x) => x,
        None => {
            return None;
        },
    };
    let kr = key_redact();
    let redact = match field_int_x(members, kr.as_slice(), 50) {
        Some(x) => x,
        None => {
            return None;
        },
    };
    let ksd = key_state_default();
    let state_default = match field_int_x(members, ksd.as_slice(), 50) {
        Some(x) => x,
        None => {
            return None;
        },
    };
    let ku = key_users();
    let users = match field_levels_x(members, ku.as_slice()) {
        Some(x) => x,
        None => {
            return None;
        },
    };
    let kud = key_users_default();
    let users_default = match field_int_x(members, kud.as_slice(), 0) {
        Some(x) => x,
        None => {
            return None;
        },
    };
    let room = match field_notifications_x(members) {
        Some(x) => x,
        None => {
            return None;
        },
    };
    let c = RoomPowerLevelsEventContent {
        ban,
        events,
        events_default,
        invite,
        kick,
        redact,
        state_default,
        users,
        users_default,
        notifications: NotificationPowerLevels { room },
    };
    Some(c)
}

/// Encodes a level mapping as object members, pair by pair in order.
fn levels_to_members(lv: &LevelMap) -> (r: Vec<(Vec<u8>, JsonValue)>)
    ensures
        members_view(r@) == levels_to_json(pairs_view(lv@)),
{
    let mut r: Vec<(Vec<u8>, JsonValue)> = Vec::new();
    let mut i: usize = 0;
    while i < lv.len()
        invariant
            i <= lv.len(),
            r@.len() == i,
            forall|k: int|
                0 <= k < i ==> r@[k].0@ == lv@[k].0@ && r@[k].1@ == SpecJson::Int(lv@[k].1),
        decreases lv.len() - i,
    {
        let key = copy_range(lv[i].0.as_slice(), 0, lv[i].0.len());
        r.push((key, JsonValue::Int(lv[i].1)));
        i = i + 1;
    }
    proof {
        lemma_members_view_index(r@);
        assert(members_view(r@) =~= levels_to_json(pairs_view(lv@)));
    }
    r
}

/// Encodes a power-levels content as a document: exactly the encoding
/// [`spl_to_json`] describes, defaults omitted.
#[verifier::rlimit(100)]
pub fn power_levels_to_json(c: &RoomPowerLevelsEventContent) -> (v: JsonValue)
    ensures
        v@ == spl_to_json(c@),
{
    let mut m: Vec<(Vec<u8>, JsonValue)> = Vec::new();
    proof {
        assert(members_view(m@) =~= Seq::<(Seq<u8>, SpecJson)>::empty());
    }
    if !is_default_power_level(&c.ban) {
        m.push((key_ban(), JsonValue::Int(c.ban)));
    }
    let ghost g1 = members_view(m@);
    proof {
        assert(g1 =~= seg_int(k_ban(), c@.ban, 50));
    }
    if c.events.len() > 0 {
        let em = levels_to_members(&c.events);
        m.push((key_events(), JsonValue::Obj(em)));
    }
    let ghost g2 = members_view(m@);
    proof {
        assert(g2 =~= g1 + seg_levels(k_events(), c@.events));
    }
    if c.events_default != 0 {
        m.push((key_events_default(), JsonValue::Int(c.events_default)));
    }
    let ghost g3 = members_view(m@);
    proof {
        assert(g3 =~= g2 + seg_int(k_events_default(), c@.events_default, 0));
    }
    if c.invite != 0 {
        m.push((key_invite(), JsonValue::Int(c.invite)));
    }
    let ghost g4 = members_view(m@);
    proof {
        assert(g4 =~= g3 + seg_int(k_invite(), c@.invite, 0));
    }
    if !is_default_power_level(&c.kick) {
        m.push((key_kick(), JsonValue::Int(c.kick)));
    }
    let ghost g5 = members_view(m@);
    proof {
        assert(g5 =~= g4 + seg_int(k_kick(), c@.kick, 50));
    }
    if !is_default_power_level(&c.redact) {
        m.push((key_redact(), JsonValue::Int(c.redact)));
    }
    let ghost g6 = members_view(m@);
    proof {
        assert(g6 =~= g5 + seg_int(k_redact(), c@.redact, 50));
    }
    if !is_default_power_level(&c.state_default) {
        m.push((key_state_default(), JsonValue::Int(c.state_default)));
    }
    let ghost g7 = members_view(m@);
    proof {
        assert(g7 =~= g6 + seg_int(k_state_default(), c@.state_default, 50));
    }
    if c.users.len() > 0 {
        let um = levels_to_members(&c.users);
        m.push((key_users(), JsonValue::Obj(um)));
    }
    let ghost g8 = members_view(m@);
    proof {
        assert(g8 =~= g7 + seg_levels(k_users(), c@.users));
    }
    if c.users_default != 0 {
        m.push((key_users_default(), JsonValue::Int(c.users_default)));
    }
    let ghost g9 = members_view(m@);
    proof {
        assert(g9 =~= g8 + seg_int(k_users_default(), c@.users_default, 0));
    }
    if c.notifications.room != 0 {
        let mut nm: Vec<(Vec<u8>, JsonValue)> = Vec::new();
        nm.push((key_room(), JsonValue::Int(c.notifications.room)));
        proof {
            assert(members_view(nm@) =~= seq![(k_room(), SpecJson::Int(c@.notifications_room))]);
        }
        m.push((key_notifications(), JsonValue::Obj(nm)));
    }
    proof {
        assert(members_view(m@) =~= g9 + seg_notifications(c@.notifications_room));
        assert(members_view(m@) =~= spl_members(c@));
    }
    JsonValue::Obj(m)
}

/// Encodes a power-levels content as canonical JSON bytes.
pub fn encode_power_levels(c: &RoomPowerLevelsEventContent) -> (out: Vec<u8>)
    ensures
        out@ == crate::json_out::ser_json(spl_to_json(c@)),
{
    let v = power_levels_to_json(c);
    crate::json_out::to_json_bytes(&v)
}

/// Looking a key up in concatenated member lists searches the left list
/// first.
pub broadcast proof fn lemma_obj_get_append(
    a: Seq<(Seq<u8>, SpecJson)>,
    b: Seq<(Seq<u8>, SpecJson)>,
    k: Seq<u8>,
)
    ensures
        #[trigger] crate::json::spec_obj_get(a + b, k) == (
        match crate::json::spec_obj_get(a, k) {
            Some(v) => Some(v),
            None => crate::json::spec_obj_get(b, k),
        }),
    decreases a.len(),
{
    if a.len() == 0 {
        assert(a + b =~= b);
    } else {
        assert((a + b)[0] == a[0]);
        assert((a + b).drop_first() =~= a.drop_first() + b);
        lemma_obj_get_append(a.drop_first(), b, k);
    }
}

/// Looking a key up in a one-member list compares that one key.
pub broadcast proof fn lemma_obj_get_single(p: (Seq<u8>, SpecJson), k: Seq<u8>)
    ensures
        #[trigger] crate::json::spec_obj_get(seq![p], k) == (
        if p.0 == k {
            Some(p.1)
        } else {
            None
        }),
{
    let s = seq![p];
    assert(s.drop_first() =~= Seq::<(Seq<u8>, SpecJson)>::empty());
    assert(crate::json::spec_obj_get(s.drop_first(), k) is None);
}

/// Looking a key up in an encoded numeric field finds its value exactly
/// when the field was written (non-default) under that key.
pub broadcast proof fn lemma_seg_int_get(key: Seq<u8>, val: i64, dflt: i64, k: Seq<u8>)
    ensures
        #[trigger] crate::json::spec_obj_get(seg_int(key, val, dflt), k) == (
        if val != dflt && key == k {
            Some(SpecJson::Int(val))
        } else {
            None
        }),
{
    if val != dflt {
        lemma_obj_get_single((key, SpecJson::Int(val)), k);
    }
}

/// Looking a key up in an encoded mapping field finds its object exactly
/// when the mapping was written (non-empty) under that key.
pub broadcast proof fn lemma_seg_levels_get(key: Seq<u8>, lv: Seq<(Seq<u8>, i64)>, k: Seq<u8>)
    ensures
        #[trigger] crate::json::spec_obj_get(seg_levels(key, lv), k) == (
        if lv.len() != 0 && key == k {
            Some(SpecJson::Obj(levels_to_json(lv)))
        } else {
            None
        }),
{
    if lv.len() != 0 {
        lemma_obj_get_single((key, SpecJson::Obj(levels_to_json(lv))), k);
    }
}

/// Looking a key up in the encoded `notifications` field finds its
/// object exactly when the field was written (non-default) under the
/// `notifications` key.
pub broadcast proof fn lemma_seg_notifications_get(room: i64, k: Seq<u8>)
    ensures
        #[trigger] crate::json::spec_obj_get(seg_notifications(room), k) == (
        if room != 0 && k_notifications() == k {
            Some(SpecJson::Obj(seq![(k_room(), SpecJson::Int(room))]))
        } else {
            None
        }),
{
    if room != 0 {
        lemma_obj_get_single(
            (k_notifications(), SpecJson::Obj(seq![(k_room(), SpecJson::Int(room))])),
            k,
        );
    }
}

/// Decoding the encoding of a level mapping gives back the same pairs in
/// the same order.
pub proof fn lemma_levels_round_trip(lv: Seq<(Seq<u8>, i64)>)
    ensures
        levels_of_json(levels_to_json(lv)) == Some(lv),
    decreases lv.len(),
{
    if lv.len() == 0 {
        assert(levels_to_json(lv) =~= Seq::<(Seq<u8>, SpecJson)>::empty());
        assert(levels_of_json(levels_to_json(lv)).unwrap() =~= lv);
    } else {
        let m = levels_to_json(lv);
        assert(m[0] == (lv[0].0, SpecJson::Int(lv[0].1)));
        assert(m.drop_first() =~= levels_to_json(lv.drop_first()));
        lemma_levels_round_trip(lv.drop_first());
        assert(seq![(m[0].0, lv[0].1)] + lv.drop_first() =~= lv);
    }
}

/// The default round-trip law, in its general form: decoding the
/// default-omitting encoding of any power-levels content value gives
/// back exactly that value — absent fields are refilled from their
/// defaults, and the mappings keep their pairs and order.
#[verifier::rlimit(100)]
#[verifier::spinoff_prover]
pub proof fn lemma_power_levels_codec_round_trip(c: SpecPowerLevels)
    ensures
        spl_of_json(spl_to_json(c)) == Some(c),
{
    broadcast use lemma_obj_get_append, lemma_seg_int_get, lemma_seg_levels_get,
        lemma_seg_notifications_get;

    let ms = spl_members(c);
    lemma_levels_round_trip(c.events);
    lemma_levels_round_trip(c.users);
    assert(k_events().len() == 6);
    assert(k_events_default().len() == 14);
    assert(k_users().len() == 5);
    assert(k_users_default().len() == 13);
    assert(k_events() != k_events_default());
    assert(k_users() != k_users_default());
    assert(field_int(ms, k_ban(), 50) == Some(c.ban));
    assert(field_levels(ms, k_events()) == Some(c.events)) by {
        if c.events.len() == 0 {
            assert(c.events =~= Seq::<(Seq<u8>, i64)>::empty());
        }
    }
    assert(field_int(ms, k_events_default(), 0) == Some(c.events_default));
    assert(field_int(ms, k_invite(), 0) == Some(c.invite));
    assert(field_int(ms, k_kick(), 50) == Some(c.kick));
    assert(field_int(ms, k_redact(), 50) == Some(c.redact));
    assert(field_int(ms, k_state_default(), 50) == Some(c.state_default));
    assert(field_levels(ms, k_users()) == Some(c.users)) by {
        if c.users.len() == 0 {
            assert(c.users =~= Seq::<(Seq<u8>, i64)>::empty());
        }
    }
    assert(field_int(ms, k_users_default(), 0) == Some(c.users_default));
    assert(field_notifications(ms) == Some(c.notifications_room));
    assert(spl_of_json(spl_to_json(c)).unwrap() =~= c);
}

} // verus!

