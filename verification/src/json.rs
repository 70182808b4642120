//! A small JSON document model.
//!
//! [`JsonValue`] is the executable representation of a parsed JSON document;
//! [`SpecJson`] is its mathematical abstraction, used by every contract that
//! speaks about document contents.  Strings are kept as their UTF-8 bytes.
//! A number is held as an `i64` when it is written as an integer that fits
//! that type; any other numeric literal (fractions, exponents, out-of-range
//! integers) is carried verbatim as its source text, so that re-serializing
//! it loses nothing.

use vstd::prelude::*;

verus! {

broadcast use vstd::std_specs::vec::axiom_vec_index_decreases;

/// Mathematical model of a JSON document.
pub enum SpecJson {
    /// The literal `null`.
    Null,
    /// `true` or `false`.
    Bool(bool),
    /// An integer number that fits `i64`.
    Int(i64),
    /// Any other numeric literal, kept as its exact source bytes.
    NumLit(Seq<u8>),
    /// A string, as the UTF-8 bytes of its decoded (unescaped) text.
    Str(Seq<u8>),
    /// An array of documents.
    Arr(Seq<SpecJson>),
    /// An object: its members in order, each a key (decoded UTF-8 bytes)
    /// paired with a value.
    Obj(Seq<(Seq<u8>, SpecJson)>),
}

/// Executable representation of a JSON document; abstracted by [`SpecJson`].
pub enum JsonValue {
    /// The literal `null`.
    Null,
    /// `true` or `false`.
    Bool(bool),
    /// An integer number that fits `i64`.
    Int(i64),
    /// Any other numeric literal, kept as its exact source bytes.
    NumLit(Vec<u8>),
    /// A string, as the UTF-8 bytes of its decoded (unescaped) text.
    Str(Vec<u8>),
    /// An array of documents.
    Arr(Vec<JsonValue>),
    /// An object: its members in order.
    Obj(Vec<(Vec<u8>, JsonValue)>),
}

impl View for JsonValue {
    type V = SpecJson;

    open spec fn view(&self) -> SpecJson
        decreases self, 1int,
    {
        match self {
            JsonValue::Null => SpecJson::Null,
            JsonValue::Bool(b) => SpecJson::Bool(*b),
            JsonValue::Int(n) => SpecJson::Int(*n),
            JsonValue::NumLit(t) => SpecJson::NumLit(t@),
            JsonValue::Str(s) => SpecJson::Str(s@),
            JsonValue::Arr(items) => SpecJson::Arr(arr_view(items@)),
            JsonValue::Obj(members) => SpecJson::Obj(members_view(members@)),
        }
    }
}

/// The abstraction of a sequence of array items.
pub open spec fn arr_view(items: Seq<JsonValue>) -> Seq<SpecJson>
    decreases items, 0int,
{
    if items.len() == 0 {
        Seq::empty()
    } else {
        arr_view(items.subrange(0, items.len() - 1)) + seq![items[items.len() - 1]@]
    }
}

/// The abstraction of a sequence of object members.
pub open spec fn members_view(members: Seq<(Vec<u8>, JsonValue)>) -> Seq<(Seq<u8>, SpecJson)>
    decreases members, 0int,
{
    if members.len() == 0 {
        Seq::empty()
    } else {
        members_view(members.subrange(0, members.len() - 1)) + seq![
            (members[members.len() - 1].0@, members[members.len() - 1].1@),
        ]
    }
}

/// The value of the first member of `members` whose key is `key`, if any.
pub open spec fn spec_obj_get(members: Seq<(Seq<u8>, SpecJson)>, key: Seq<u8>) -> Option<SpecJson>
    decreases members.len(),
{
    if members.len() == 0 {
        None
    } else if members[0].0 == key {
        Some(members[0].1)
    } else {
        spec_obj_get(members.drop_first(), key)
    }
}

/// Compares two byte strings for equality.
pub fn bytes_eq(a: &[u8], b: &[u8]) -> (r: bool)
    ensures
        r == (a@ == b@),
{
    if a.len() != b.len() {
        proof {
            assert(a@.len() != b@.len());
        }
        return false;
    }
    let mut i: usize = 0;
    while i < a.len()
        invariant
            i <= a.len(),
            a@.len() == b@.len(),
            forall|k: int| 0 <= k < i ==> a@[k] == b@[k],
        decreases a.len() - i,
    {
        if a[i] != b[i] {
            proof {
                assert(a@[i as int] != b@[i as int]);
            }
            return false;
        }
        i = i + 1;
    }
    proof {
        assert(a@ =~= b@);
    }
    true
}

/// Looks up `key` among `members`, returning a reference to the value of the
/// first member with that key.
pub fn obj_get<'a>(members: &'a Vec<(Vec<u8>, JsonValue)>, key: &[u8]) -> (r: Option<
    &'a JsonValue,
>)
    ensures
        match r {
            Some(v) => spec_obj_get(obj_view(members), key@) == Some(v@),
            None => spec_obj_get(obj_view(members), key@) is None,
        },
{
    let ghost ms = obj_view(members);
    proof {
        lemma_members_view_index(members@);
        assert(ms.skip(0) =~= ms);
    }
    let mut i: usize = 0;
    while i < members.len()
        invariant
            i <= members.len(),
            ms == obj_view(members),
            ms.len() == members@.len(),
            forall|k: int| 0 <= k < ms.len() ==> ms[k] == (members@[k].0@, members@[k].1@),
            spec_obj_get(ms, key@) == spec_obj_get(ms.skip(i as int), key@),
        decreases members.len() - i,
    {
        proof {
            assert(ms.skip(i as int)[0] == ms[i as int]);
            assert(ms.skip(i as int).drop_first() =~= ms.skip(i as int + 1));
        }
        if bytes_eq(members[i].0.as_slice(), key) {
            return Some(&members[i].1);
        }
        i = i + 1;
    }
    proof {
        assert(ms.skip(i as int).len() == 0);
    }
    None
}

/// The member sequence of an object value, abstracted.
pub open spec fn obj_view(members: &Vec<(Vec<u8>, JsonValue)>) -> Seq<(Seq<u8>, SpecJson)> {
    members_view(members@)
}

/// `members_view` maps the member at each index, and keeps the length.
pub proof fn lemma_members_view_index(members: Seq<(Vec<u8>, JsonValue)>)
    ensures
        members_view(members).len() == members.len(),
        forall|i: int|
            0 <= i < members.len() ==> members_view(members)[i] == (
            members[i].0@,
            members[i].1@,
            ),
    decreases members.len(),
{
    if members.len() == 0 {
        assert(members_view(members) =~= Seq::<(Seq<u8>, SpecJson)>::empty());
    } else {
        let prefix = members.subrange(0, members.len() - 1);
        let last = (members[members.len() - 1].0@, members[members.len() - 1].1@);
        lemma_members_view_index(prefix);
        assert(members_view(members) == members_view(prefix) + seq![last]);
        assert forall|i: int| 0 <= i < members.len() implies members_view(members)[i] == (
            members[i].0@,
            members[i].1@,
        ) by {
            if i < members.len() - 1 {
                assert(prefix[i] == members[i]);
                assert(members_view(members)[i] == members_view(prefix)[i]);
            } else {
                assert(members_view(members)[i] == last);
            }
        }
    }
}

/// `arr_view` maps the item at each index, and keeps the length.
pub proof fn lemma_arr_view_index(items: Seq<JsonValue>)
    ensures
        arr_view(items).len() == items.len(),
        forall|i: int| 0 <= i < items.len() ==> arr_view(items)[i] == items[i]@,
    decreases items.len(),
{
    if items.len() == 0 {
        assert(arr_view(items) =~= Seq::<SpecJson>::empty());
    } else {
        let prefix = items.subrange(0, items.len() - 1);
        lemma_arr_view_index(prefix);
        assert(arr_view(items) == arr_view(prefix) + seq![items[items.len() - 1]@]);
        assert forall|i: int| 0 <= i < items.len() implies arr_view(items)[i] == items[i]@ by {
            if i < items.len() - 1 {
                assert(prefix[i] == items[i]);
                assert(arr_view(items)[i] == arr_view(prefix)[i]);
            } else {
                assert(arr_view(items)[i] == items[i]@);
            }
        }
    }
}


/// Pushing a member onto a member list appends its abstraction.
pub broadcast proof fn lemma_members_view_push(s: Seq<(Vec<u8>, JsonValue)>, x: (Vec<u8>, JsonValue))
    ensures
        #[trigger] members_view(s.push(x)) == members_view(s) + seq![(x.0@, x.1@)],
{
    let t = s.push(x);
    assert(t.subrange(0, t.len() - 1) =~= s);
    assert(t[t.len() - 1] == x);
}

} // verus!

