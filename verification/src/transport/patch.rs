//! PATCH: JSON Merge Patch (RFC 7396), with the rule OCPI adds on top — every PATCH carries
//! `last_updated` — and what a client does after a PATCH the peer refused.

use vstd::prelude::*;

use core::marker::PhantomData;

use crate::strings::{dec_digits, push_str, str_eq};
use crate::types::datetime::{DateTime, datetime_outcome};
use vstd::utf8::encode_utf8;

use super::envelope::OcpiError;
use super::status::StatusCode;

verus! {

/// A JSON value, as a merge patch reads and writes it.
///
/// An object keeps its members in order, and its keys are distinct.
#[derive(Debug)]
pub enum JsonValue {
    /// `null`.
    Null,
    /// `true` or `false`.
    Bool(bool),
    /// A number, as the text it is written with.
    Number(String),
    /// A string.
    String(String),
    /// An array.
    Array(Vec<JsonValue>),
    /// An object: its members, in order.
    Object(Vec<(String, JsonValue)>),
}

/// A JSON value as the contracts see it.
pub enum JsonView {
    /// `null`.
    Null,
    /// A boolean.
    Bool(bool),
    /// A number's text.
    Number(Seq<char>),
    /// A string.
    String(Seq<char>),
    /// An array.
    Array(Seq<JsonView>),
    /// An object's members.
    Object(Seq<(Seq<char>, JsonView)>),
}

/// A JSON value's view.
pub open spec fn json_view(v: JsonValue) -> JsonView
    decreases v,
{
    match v {
        JsonValue::Null => JsonView::Null,
        JsonValue::Bool(b) => JsonView::Bool(b),
        JsonValue::Number(n) => JsonView::Number(n@),
        JsonValue::String(s) => JsonView::String(s@),
        JsonValue::Array(items) => JsonView::Array(items_view(items@)),
        JsonValue::Object(members) => JsonView::Object(members_view(members@)),
    }
}

/// The views of array items.
pub open spec fn items_view(items: Seq<JsonValue>) -> Seq<JsonView>
    decreases items,
{
    Seq::new(
        items.len(),
        |i: int|
            if 0 <= i < items.len() {
                json_view(items[i])
            } else {
                JsonView::Null
            },
    )
}

/// The views of object members.
pub open spec fn members_view(members: Seq<(String, JsonValue)>) -> Seq<(Seq<char>, JsonView)>
    decreases members,
{
    Seq::new(
        members.len(),
        |i: int|
            if 0 <= i < members.len() {
                (members[i].0@, json_view(members[i].1))
            } else {
                (Seq::empty(), JsonView::Null)
            },
    )
}

/// Where the first of the first `count` members named `key` stands, if there is one.
pub open spec fn first_member(members: Seq<(Seq<char>, JsonView)>, key: Seq<char>, count: int) -> Option<int>
    decreases count,
{
    if count <= 0 {
        None
    } else {
        match first_member(members, key, count - 1) {
            Some(i) => Some(i),
            None => if members[count - 1].0 == key {
                Some(count - 1)
            } else {
                None
            },
        }
    }
}

/// Where the member named `key` stands, if there is one.
pub open spec fn member_index(members: Seq<(Seq<char>, JsonView)>, key: Seq<char>) -> Option<int> {
    first_member(members, key, members.len() as int)
}

/// The first `count` members, without those named `key`.
pub open spec fn kept_members(members: Seq<(Seq<char>, JsonView)>, key: Seq<char>, count: int) -> Seq<
    (Seq<char>, JsonView),
>
    decreases count,
{
    if count <= 0 {
        Seq::empty()
    } else {
        let rest = kept_members(members, key, count - 1);
        if members[count - 1].0 == key {
            rest
        } else {
            rest.push(members[count - 1])
        }
    }
}

/// The members without the one named `key`.
pub open spec fn without_member(members: Seq<(Seq<char>, JsonView)>, key: Seq<char>) -> Seq<
    (Seq<char>, JsonView),
> {
    kept_members(members, key, members.len() as int)
}

/// The members of an object, or none for anything else.
pub open spec fn object_members(v: JsonView) -> Seq<(Seq<char>, JsonView)> {
    match v {
        JsonView::Object(members) => members,
        _ => Seq::empty(),
    }
}

/// RFC 7396: a patch that is not an object replaces the target; an object patch is applied
/// member by member to the target's members (to none when the target is not an object), a
/// `null` member removing the member of that name and any other merging into it.
pub open spec fn merged(target: JsonView, patch: JsonView) -> JsonView
    decreases patch, 0int,
{
    match patch {
        JsonView::Object(pm) => JsonView::Object(merged_members(object_members(target), pm, pm.len() as int)),
        _ => patch,
    }
}

/// The first `n` members of an object patch applied, in order, to `base`.
pub open spec fn merged_members(
    base: Seq<(Seq<char>, JsonView)>,
    pm: Seq<(Seq<char>, JsonView)>,
    n: int,
) -> Seq<(Seq<char>, JsonView)>
    decreases pm, n,
{
    if n <= 0 || n > pm.len() {
        base
    } else {
        let b = merged_members(base, pm, n - 1);
        let key = pm[n - 1].0;
        let value = pm[n - 1].1;
        if value is Null {
            without_member(b, key)
        } else {
            match member_index(b, key) {
                Some(j) => b.update(j, (key, merged(b[j].1, value))),
                None => b.push((key, merged(JsonView::Null, value))),
            }
        }
    }
}

/// A deep copy.
fn copy_json(v: &JsonValue) -> (r: JsonValue)
    ensures
        json_view(r) == json_view(*v),
    decreases v,
{
    match v {
        JsonValue::Null => JsonValue::Null,
        JsonValue::Bool(b) => JsonValue::Bool(*b),
        JsonValue::Number(n) => JsonValue::Number(n.clone()),
        JsonValue::String(t) => JsonValue::String(t.clone()),
        JsonValue::Array(items) => {
            let mut out: Vec<JsonValue> = Vec::new();
            let mut i: usize = 0;
            while i < items.len()
                invariant
                    *v == JsonValue::Array(*items),
                    i <= items@.len(),
                    out@.len() == i,
                    forall|j: int| 0 <= j < i ==> json_view(#[trigger] out@[j]) == json_view(items@[j]),
                decreases items@.len() - i,
            {
                assert(decreases_to!(*v => v->Array_0));
                assert(decreases_to!(v => items@[i as int]));
                let c = copy_json(&items[i]);
                out.push(c);
                i = i + 1;
            }
            assert(items_view(out@) =~= items_view(items@));
            JsonValue::Array(out)
        },
        JsonValue::Object(members) => {
            let mut out: Vec<(String, JsonValue)> = Vec::new();
            let mut i: usize = 0;
            while i < members.len()
                invariant
                    *v == JsonValue::Object(*members),
                    i <= members@.len(),
                    out@.len() == i,
                    forall|j: int|
                        0 <= j < i ==> (#[trigger] out@[j]).0@ == members@[j].0@ && json_view(out@[j].1)
                            == json_view(members@[j].1),
                decreases members@.len() - i,
            {
                assert(decreases_to!(*v => v->Object_0));
                assert(decreases_to!(v => members@[i as int].1));
                let c = copy_json(&members[i].1);
                out.push((members[i].0.clone(), c));
                i = i + 1;
            }
            assert(members_view(out@) =~= members_view(members@));
            JsonValue::Object(out)
        },
    }
}

impl Clone for JsonValue {
    fn clone(&self) -> (r: Self)
        ensures
            json_view(r) == json_view(*self),
    {
        copy_json(self)
    }
}

/// Whether two JSON values are the same.
fn json_equal(a: &JsonValue, b: &JsonValue) -> (r: bool)
    ensures
        r == (json_view(*a) == json_view(*b)),
    decreases a,
{
    match (a, b) {
        (JsonValue::Null, JsonValue::Null) => true,
        (JsonValue::Bool(x), JsonValue::Bool(y)) => *x == *y,
        (JsonValue::Number(x), JsonValue::Number(y)) => str_eq(x.as_str(), y.as_str()),
        (JsonValue::String(x), JsonValue::String(y)) => str_eq(x.as_str(), y.as_str()),
        (JsonValue::Array(x), JsonValue::Array(y)) => {
            if x.len() != y.len() {
                assert(items_view(x@).len() != items_view(y@).len());
                return false;
            }
            let mut i: usize = 0;
            while i < x.len()
                invariant
                    *a == JsonValue::Array(*x),
                    *b == JsonValue::Array(*y),
                    i <= x@.len(),
                    x@.len() == y@.len(),
                    forall|j: int| 0 <= j < i ==> json_view(#[trigger] x@[j]) == json_view(y@[j]),
                decreases x@.len() - i,
            {
                assert(decreases_to!(a => x@[i as int]));
                if !json_equal(&x[i], &y[i]) {
                    assert(items_view(x@)[i as int] != items_view(y@)[i as int]);
                    return false;
                }
                i = i + 1;
            }
            assert(items_view(x@) =~= items_view(y@));
            true
        },
        (JsonValue::Object(x), JsonValue::Object(y)) => {
            if x.len() != y.len() {
                assert(members_view(x@).len() != members_view(y@).len());
                return false;
            }
            let mut i: usize = 0;
            while i < x.len()
                invariant
                    *a == JsonValue::Object(*x),
                    *b == JsonValue::Object(*y),
                    i <= x@.len(),
                    x@.len() == y@.len(),
                    forall|j: int|
                        0 <= j < i ==> (#[trigger] x@[j]).0@ == y@[j].0@ && json_view(x@[j].1) == json_view(
                            y@[j].1,
                        ),
                decreases x@.len() - i,
            {
                assert(decreases_to!(a => x@[i as int].1));
                if !str_eq(x[i].0.as_str(), y[i].0.as_str()) {
                    assert(members_view(x@)[i as int] != members_view(y@)[i as int]);
                    return false;
                }
                if !json_equal(&x[i].1, &y[i].1) {
                    assert(members_view(x@)[i as int] != members_view(y@)[i as int]);
                    return false;
                }
                i = i + 1;
            }
            assert(members_view(x@) =~= members_view(y@));
            true
        },
        _ => false,
    }
}

impl PartialEq for JsonValue {
    fn eq(&self, other: &Self) -> (r: bool) {
        json_equal(self, other)
    }
}

impl vstd::std_specs::cmp::PartialEqSpecImpl for JsonValue {
    open spec fn obeys_eq_spec() -> bool {
        true
    }

    open spec fn eq_spec(&self, other: &Self) -> bool {
        json_view(*self) == json_view(*other)
    }
}


/// A first match found stays the first match.
proof fn lemma_first_member_stays(m: Seq<(Seq<char>, JsonView)>, key: Seq<char>, a: int, b: int)
    requires
        a <= b,
        first_member(m, key, a) is Some,
    ensures
        first_member(m, key, b) == first_member(m, key, a),
    decreases b - a,
{
    if b > a {
        lemma_first_member_stays(m, key, a, b - 1);
    }
}

/// A first match is a member of that name.
proof fn lemma_first_member_named(m: Seq<(Seq<char>, JsonView)>, key: Seq<char>, n: int)
    ensures
        first_member(m, key, n) matches Some(j) ==> 0 <= j < n && m[j].0 == key,
    decreases n,
{
    if n > 0 {
        lemma_first_member_named(m, key, n - 1);
    }
}

/// Where the member named `key` stands.
fn find_member(members: &Vec<(String, JsonValue)>, key: &str) -> (r: Option<usize>)
    ensures
        match member_index(members_view(members@), key@) {
            Some(i) => r == Some(i as usize),
            None => r is None,
        },
{
    let ghost mv = members_view(members@);
    let n = members.len();
    let mut i: usize = 0;
    while i < n
        invariant
            i <= n,
            n == members@.len(),
            mv == members_view(members@),
            first_member(mv, key@, i as int) is None,
        decreases n - i,
    {
        assert(mv[i as int].0 == members@[i as int].0@);
        if str_eq(members[i].0.as_str(), key) {
            proof {
                lemma_first_member_stays(mv, key@, i + 1, n as int);
            }
            return Some(i);
        }
        i = i + 1;
    }
    None
}

/// The members without the one named `key`.
fn remove_member(members: &Vec<(String, JsonValue)>, key: &str) -> (r: Vec<(String, JsonValue)>)
    ensures
        members_view(r@) == without_member(members_view(members@), key@),
{
    let ghost mv = members_view(members@);
    let n = members.len();
    let mut out: Vec<(String, JsonValue)> = Vec::new();
    let mut i: usize = 0;
    while i < n
        invariant
            i <= n,
            n == members@.len(),
            mv == members_view(members@),
            members_view(out@) == kept_members(mv, key@, i as int),
        decreases n - i,
    {
        assert(mv[i as int] == (members@[i as int].0@, json_view(members@[i as int].1)));
        let ghost before = out@;
        if !str_eq(members[i].0.as_str(), key) {
            let c = copy_json(&members[i].1);
            out.push((members[i].0.clone(), c));
            assert(members_view(out@) =~= members_view(before).push(mv[i as int]));
        }
        i = i + 1;
    }
    out
}

/// Applies an RFC 7396 JSON Merge Patch in place: a patch that is not an object replaces the
/// target; an object patch makes the target an object if it is not one, removes each member the
/// patch sets to `null`, and merges each other member into the target's member of that name,
/// adding it when there is none.
pub fn merge(target: &mut JsonValue, patch: &JsonValue)
    ensures
        json_view(*final(target)) == merged(json_view(*old(target)), json_view(*patch)),
    decreases patch,
{
    match patch {
        JsonValue::Object(pm) => {
            let mut old_value = JsonValue::Null;
            core::mem::swap(&mut old_value, target);
            let mut members: Vec<(String, JsonValue)> = match old_value {
                JsonValue::Object(m) => m,
                _ => Vec::new(),
            };
            let ghost base = members_view(members@);
            assert(base =~= object_members(json_view(*old(target))));
            let ghost pmv = members_view(pm@);
            let n = pm.len();
            let mut i: usize = 0;
            while i < n
                invariant
                    *patch == JsonValue::Object(*pm),
                    i <= n,
                    n == pm@.len(),
                    pmv == members_view(pm@),
                    members_view(members@) == merged_members(base, pmv, i as int),
                decreases n - i,
            {
                assert(decreases_to!(*patch => patch->Object_0));
                assert(decreases_to!(patch => pm@[i as int].1));
                let key = &pm[i].0;
                let value = &pm[i].1;
                assert(pmv[i as int] == (key@, json_view(*value)));
                let ghost b = members_view(members@);
                match value {
                    JsonValue::Null => {
                        members = remove_member(&members, key.as_str());
                    },
                    _ => {
                        let mlen = members.len();
                        match find_member(&members, key.as_str()) {
                            Some(j) => {
                                proof {
                                    lemma_first_member_named(b, key@, b.len() as int);
                                    assert(member_index(b, key@) == first_member(b, key@, b.len() as int));
                                    assert(member_index(b, key@) is Some);
                                    let ii = member_index(b, key@)->0;
                                    assert(0 <= ii < b.len());
                                    assert(b.len() == mlen);
                                    assert(ii == j as int);
                                }
                                let ghost before = members@;
                                assert(b[j as int] == (before[j as int].0@, json_view(before[j as int].1)));
                                assert(b[j as int].0 == key@);
                                let (k, mut child) = members.remove(j);
                                assert(k == before[j as int].0);
                                assert(json_view(child) == b[j as int].1);
                                merge(&mut child, value);
                                let ghost merged_child = json_view(child);
                                assert(merged_child == merged(b[j as int].1, json_view(*value)));
                                assert(k@ == key@);
                                members.insert(j, (k, child));
                                assert(members@ =~= before.update(j as int, (k, child)));
                                assert forall|t: int| 0 <= t < members@.len() implies members_view(members@)[t]
                                    == b.update(j as int, (key@, merged_child))[t] by {
                                    if t != j {
                                        assert(members@[t] == before[t]);
                                    }
                                }
                                assert(members_view(members@) =~= b.update(
                                    j as int,
                                    (key@, merged(b[j as int].1, json_view(*value))),
                                ));
                            },
                            None => {
                                let mut child = JsonValue::Null;
                                merge(&mut child, value);
                                members.push((key.clone(), child));
                                assert(members_view(members@) =~= b.push(
                                    (key@, merged(JsonView::Null, json_view(*value))),
                                ));
                            },
                        }
                    },
                }
                i = i + 1;
            }
            *target = JsonValue::Object(members);
        },
        _ => {
            *target = copy_json(patch);
        },
    }
}


/// The value of the first member named `key`, if there is one.
pub open spec fn member_value(members: Seq<(Seq<char>, JsonView)>, key: Seq<char>) -> Option<JsonView> {
    match member_index(members, key) {
        Some(j) => Some(members[j].1),
        None => None,
    }
}

/// Whether no two members of an object share a name, and the same holds inside every member.
pub open spec fn distinct_names_throughout(v: JsonView) -> bool
    decreases v,
{
    match v {
        JsonView::Object(m) => {
            &&& forall|i: int, j: int| 0 <= i < j < m.len() ==> m[i].0 != m[j].0
            &&& forall|i: int| 0 <= i < m.len() ==> distinct_names_throughout(#[trigger] m[i].1)
        },
        _ => true,
    }
}

/// One member of an object patch applied to `b`.
pub open spec fn merge_step(b: Seq<(Seq<char>, JsonView)>, key: Seq<char>, value: JsonView) -> Seq<
    (Seq<char>, JsonView),
> {
    if value is Null {
        without_member(b, key)
    } else {
        match member_index(b, key) {
            Some(j) => b.update(j, (key, merged(b[j].1, value))),
            None => b.push((key, merged(JsonView::Null, value))),
        }
    }
}

/// `first_member` reads only the first `n` members.
proof fn lemma_first_member_prefix(a: Seq<(Seq<char>, JsonView)>, b: Seq<(Seq<char>, JsonView)>, key: Seq<char>, n: int)
    requires
        0 <= n <= a.len(),
        n <= b.len(),
        forall|i: int| 0 <= i < n ==> a[i].0 == b[i].0,
    ensures
        first_member(a, key, n) == first_member(b, key, n),
    decreases n,
{
    if n > 0 {
        lemma_first_member_prefix(a, b, key, n - 1);
    }
}

/// No first match means no member of that name.
proof fn lemma_first_member_none(m: Seq<(Seq<char>, JsonView)>, key: Seq<char>, n: int)
    requires
        0 <= n <= m.len(),
        first_member(m, key, n) is None,
    ensures
        forall|i: int| 0 <= i < n ==> m[i].0 != key,
    decreases n,
{
    if n > 0 {
        lemma_first_member_none(m, key, n - 1);
    }
}

/// Members with no member named `key` keep them all.
proof fn lemma_kept_all(m: Seq<(Seq<char>, JsonView)>, key: Seq<char>, n: int)
    requires
        0 <= n <= m.len(),
        forall|i: int| 0 <= i < n ==> m[i].0 != key,
    ensures
        kept_members(m, key, n) =~= m.take(n),
    decreases n,
{
    if n > 0 {
        lemma_kept_all(m, key, n - 1);
        assert(m.take(n) =~= m.take(n - 1).push(m[n - 1]));
    }
}

/// Appending a member leaves the value of every earlier name as it was, and gives an absent name
/// the appended value.
proof fn lemma_value_after_push(m: Seq<(Seq<char>, JsonView)>, x: (Seq<char>, JsonView), key: Seq<char>)
    ensures
        member_value(m.push(x), key) == match member_value(m, key) {
            Some(v) => Some(v),
            None => if x.0 == key {
                Some(x.1)
            } else {
                None
            },
        },
{
    let p = m.push(x);
    lemma_first_member_prefix(p, m, key, m.len() as int);
    lemma_first_member_named(m, key, m.len() as int);
}

/// Removing the members named `key` leaves the value of every other name as it was.
proof fn lemma_value_after_removal(m: Seq<(Seq<char>, JsonView)>, key: Seq<char>, other: Seq<char>, n: int)
    requires
        0 <= n <= m.len(),
        other != key,
    ensures
        member_value(kept_members(m, key, n), other) == member_value(m.take(n), other),
    decreases n,
{
    if n > 0 {
        lemma_value_after_removal(m, key, other, n - 1);
        assert(m.take(n) =~= m.take(n - 1).push(m[n - 1]));
        lemma_value_after_push(m.take(n - 1), m[n - 1], other);
        if m[n - 1].0 != key {
            lemma_value_after_push(kept_members(m, key, n - 1), m[n - 1], other);
        }
    }
}

/// Replacing the value of the first member named `key` leaves every other name's value as it
/// was.
proof fn lemma_value_after_update(m: Seq<(Seq<char>, JsonView)>, j: int, key: Seq<char>, y: JsonView, other: Seq<char>)
    requires
        0 <= j < m.len(),
        m[j].0 == key,
        other != key,
    ensures
        member_value(m.update(j, (key, y)), other) == member_value(m, other),
{
    let u = m.update(j, (key, y));
    lemma_first_member_prefix(u, m, other, m.len() as int);
    lemma_first_member_named(m, other, m.len() as int);
}

/// One member of a patch leaves the value of every other name as it was.
proof fn lemma_step_keeps_others(b: Seq<(Seq<char>, JsonView)>, key: Seq<char>, value: JsonView, other: Seq<char>)
    requires
        other != key,
    ensures
        member_value(merge_step(b, key, value), other) == member_value(b, other),
{
    if value is Null {
        lemma_value_after_removal(b, key, other, b.len() as int);
        assert(b.take(b.len() as int) =~= b);
    } else {
        lemma_first_member_named(b, key, b.len() as int);
        match member_index(b, key) {
            Some(j) => lemma_value_after_update(b, j, key, merged(b[j].1, value), other),
            None => lemma_value_after_push(b, (key, merged(JsonView::Null, value)), other),
        }
    }
}

/// What one member of a patch leaves under its own name: nothing for `null`, otherwise the value
/// merged into what was there.
proof fn lemma_step_own_value(b: Seq<(Seq<char>, JsonView)>, key: Seq<char>, value: JsonView)
    ensures
        member_value(merge_step(b, key, value), key) == if value is Null {
            None::<JsonView>
        } else {
            Some(
                merged(
                    match member_value(b, key) {
                        Some(x) => x,
                        None => JsonView::Null,
                    },
                    value,
                ),
            )
        },
{
    lemma_first_member_named(b, key, b.len() as int);
    if value is Null {
        let k = kept_members(b, key, b.len() as int);
        lemma_kept_has_none(b, key, b.len() as int);
        if member_index(k, key) is Some {
            lemma_first_member_named(k, key, k.len() as int);
        }
    } else {
        match member_index(b, key) {
            Some(j) => {
                let u = b.update(j, (key, merged(b[j].1, value)));
                lemma_first_member_prefix(u, b, key, b.len() as int);
            },
            None => {
                lemma_value_after_push(b, (key, merged(JsonView::Null, value)), key);
            },
        }
    }
}

/// After removing the members named `key`, none is left.
proof fn lemma_kept_has_none(m: Seq<(Seq<char>, JsonView)>, key: Seq<char>, n: int)
    requires
        0 <= n <= m.len(),
    ensures
        forall|i: int| 0 <= i < kept_members(m, key, n).len() ==> kept_members(m, key, n)[i].0 != key,
    decreases n,
{
    if n > 0 {
        lemma_kept_has_none(m, key, n - 1);
        let rest = kept_members(m, key, n - 1);
        if m[n - 1].0 != key {
            assert forall|i: int| 0 <= i < kept_members(m, key, n).len() implies kept_members(m, key, n)[i].0
                != key by {
                if i < rest.len() {
                    assert(kept_members(m, key, n)[i] == rest[i]);
                }
            }
        }
    }
}

/// The members after the first `n` members of a patch, when no later member of the patch shares
/// a name with member `i`, keep the value member `i` left.
proof fn lemma_later_steps_keep(
    base: Seq<(Seq<char>, JsonView)>,
    pm: Seq<(Seq<char>, JsonView)>,
    i: int,
    n: int,
)
    requires
        0 <= i < n <= pm.len(),
        forall|a: int, b: int| 0 <= a < b < pm.len() ==> pm[a].0 != pm[b].0,
    ensures
        member_value(merged_members(base, pm, n), pm[i].0) == member_value(
            merged_members(base, pm, i + 1),
            pm[i].0,
        ),
    decreases n,
{
    if n > i + 1 {
        lemma_later_steps_keep(base, pm, i, n - 1);
        let b = merged_members(base, pm, n - 1);
        assert(merged_members(base, pm, n) == merge_step(b, pm[n - 1].0, pm[n - 1].1));
        lemma_step_keeps_others(b, pm[n - 1].0, pm[n - 1].1, pm[i].0);
    }
}

/// Applying the first `n` members of a patch again to what the whole patch produced changes
/// nothing.
proof fn lemma_reapplied_members(
    base: Seq<(Seq<char>, JsonView)>,
    pm: Seq<(Seq<char>, JsonView)>,
    n: int,
)
    requires
        0 <= n <= pm.len(),
        forall|a: int, b: int| 0 <= a < b < pm.len() ==> pm[a].0 != pm[b].0,
        forall|a: int| 0 <= a < pm.len() ==> distinct_names_throughout(#[trigger] pm[a].1),
    ensures
        merged_members(merged_members(base, pm, pm.len() as int), pm, n) == merged_members(
            base,
            pm,
            pm.len() as int,
        ),
    decreases pm, n,
{
    let r = merged_members(base, pm, pm.len() as int);
    if n > 0 {
        lemma_reapplied_members(base, pm, n - 1);
        let i = n - 1;
        let key = pm[i].0;
        let value = pm[i].1;
        let before = merged_members(base, pm, i);
        assert(merged_members(base, pm, i + 1) == merge_step(before, key, value));
        lemma_later_steps_keep(base, pm, i, pm.len() as int);
        lemma_step_own_value(before, key, value);
        assert(merged_members(r, pm, n) == merge_step(r, key, value));
        lemma_first_member_named(r, key, r.len() as int);
        if value is Null {
            assert(member_index(r, key) is None);
            lemma_first_member_none(r, key, r.len() as int);
            lemma_kept_all(r, key, r.len() as int);
            assert(r.take(r.len() as int) =~= r);
        } else {
            let j = member_index(r, key)->0;
            let x = match member_value(before, key) {
                Some(x) => x,
                None => JsonView::Null,
            };
            assert(r[j].1 == merged(x, value));
            assert(decreases_to!(pm => pm[i].1));
            lemma_merge_idempotent(x, value);
            assert(r.update(j, (key, merged(r[j].1, value))) =~= r);
        }
    }
}

/// RFC 7396 merge is idempotent: applying a patch a second time changes nothing. This holds for
/// every patch whose objects have distinct member names, as every JSON object does.
pub proof fn lemma_merge_idempotent(target: JsonView, patch: JsonView)
    requires
        distinct_names_throughout(patch),
    ensures
        merged(merged(target, patch), patch) == merged(target, patch),
    decreases patch, 1int,
{
    match patch {
        JsonView::Object(pm) => {
            let base = object_members(target);
            lemma_reapplied_members(base, pm, pm.len() as int);
        },
        _ => {},
    }
}


/// The text of a patch's `last_updated` member, when the patch is an object with a string there.
pub open spec fn stamp_text(body: JsonView) -> Option<Seq<char>> {
    match body {
        JsonView::Object(m) => match member_value(m, "last_updated"@) {
            Some(JsonView::String(t)) => Some(t),
            _ => None,
        },
        _ => None,
    }
}

/// The text a refused PATCH is reported with: it must carry `last_updated`.
pub open spec fn missing_stamp_message() -> Seq<char> {
    "a PATCH must carry `last_updated` ("@ + (dec_digits(2001) + " ("@ + "Invalid or missing parameters"@ + ")"@)
        + ")"@
}

/// A partial update to an OCPI object of type `T`: a JSON Merge Patch.
///
/// Held as a JSON object rather than as a struct of options, because the difference between a
/// member that is absent and one that is present and `null` is the whole meaning of a merge
/// patch.
#[derive(Debug)]
pub struct Patch<T> {
    body: JsonValue,
    target: PhantomData<T>,
}

impl<T> Patch<T> {
    /// The patch body.
    pub closed spec fn spec_body(&self) -> JsonValue {
        self.body
    }

    /// Wraps a JSON value as a patch.
    pub fn from_value(body: JsonValue) -> (p: Self)
        ensures
            p.spec_body() == body,
    {
        Patch { body, target: PhantomData }
    }

    /// The patch as a JSON value.
    pub fn as_value(&self) -> (v: &JsonValue)
        ensures
            *v == self.spec_body(),
    {
        &self.body
    }

    /// The JSON value the patch consists of.
    pub fn into_value(self) -> (v: JsonValue)
        ensures
            v == self.spec_body(),
    {
        self.body
    }

    /// Whether the patch writes `field` at the top level, including writing it to `null`.
    pub fn touches(&self, field: &str) -> (r: bool)
        ensures
            r == (json_view(self.spec_body()) matches JsonView::Object(m) && member_index(m, field@) is Some),
    {
        match &self.body {
            JsonValue::Object(m) => find_member(m, field).is_some(),
            _ => false,
        }
    }

    /// The fields the patch writes, at the top level, in order.
    pub fn fields(&self) -> (r: Vec<&str>)
        ensures
            r@.len() == object_members(json_view(self.spec_body())).len(),
            forall|i: int|
                0 <= i < r@.len() ==> #[trigger] r@[i]@ == object_members(json_view(self.spec_body()))[i].0,
    {
        let mut out: Vec<&str> = Vec::new();
        match &self.body {
            JsonValue::Object(m) => {
                let ghost mv = members_view(m@);
                let mut i: usize = 0;
                while i < m.len()
                    invariant
                        self.body == JsonValue::Object(*m),
                        mv == members_view(m@),
                        i <= m@.len(),
                        out@.len() == i,
                        forall|j: int| 0 <= j < i ==> #[trigger] out@[j]@ == mv[j].0,
                    decreases m@.len() - i,
                {
                    assert(mv[i as int].0 == m@[i as int].0@);
                    out.push(m[i].0.as_str());
                    i = i + 1;
                }
            },
            _ => {},
        }
        out
    }

    /// The `last_updated` the patch carries: its `last_updated` member, when that is a string
    /// that reads as a timestamp.
    pub fn last_updated(&self) -> (r: Option<DateTime>)
        ensures
            match stamp_text(json_view(self.spec_body())) {
                Some(t) => match datetime_outcome(encode_utf8(t)) {
                    Ok(p) => r matches Some(d) && d.spec_unix() == p.0 && d.spec_nanos() == p.1
                        && d.spec_frac_digits() == p.2 && d.spec_canonical() == p.3,
                    Err(_) => r is None,
                },
                None => r is None,
            },
    {
        match &self.body {
            JsonValue::Object(m) => {
                let ghost mv = members_view(m@);
                let mlen = m.len();
                match find_member(m, "last_updated") {
                    Some(j) => {
                        proof {
                            lemma_first_member_named(mv, "last_updated"@, mv.len() as int);
                            let ii = member_index(mv, "last_updated"@)->0;
                            assert(0 <= ii < mlen);
                            assert(ii == j as int);
                        }
                        assert(mv[j as int] == (m@[j as int].0@, json_view(m@[j as int].1)));
                        let ghost stamp = m@[j as int].1;
                        assert(member_value(mv, "last_updated"@) == Some(json_view(stamp)));
                        match &m[j].1 {
                            JsonValue::String(t) => match DateTime::parse(t.as_str()) {
                                Ok(d) => Some(d),
                                Err(_) => None,
                            },
                            _ => None,
                        }
                    },
                    None => None,
                }
            },
            _ => None,
        }
    }

    /// This patch, named as a patch of the object type it will be applied to.
    pub fn retype<U>(self) -> (p: Patch<U>)
        ensures
            p.spec_body() == self.spec_body(),
    {
        Patch { body: self.body, target: PhantomData }
    }

    /// Applies this patch to an object's JSON form: refused with `2001` when the patch carries no
    /// `last_updated`, as the specification's own example of that code says; otherwise the
    /// RFC 7396 merge of the patch into the object.
    pub fn merged_into(&self, target: JsonValue) -> (r: Result<JsonValue, OcpiError>)
        ensures
            match self.last_updated_present() {
                true => r matches Ok(v) && json_view(v) == merged(json_view(target), json_view(self.spec_body())),
                false => r matches Err(OcpiError::Decode { path, message }) && path@ == "/last_updated"@
                    && message@ == missing_stamp_message(),
            },
    {
        if self.last_updated().is_none() {
            let mut message = String::new();
            push_str(&mut message, "a PATCH must carry `last_updated` (");
            let code = StatusCode::invalid_parameters().to_string();
            push_str(&mut message, code.as_str());
            push_str(&mut message, ")");
            assert(message@ =~= missing_stamp_message());
            return Err(OcpiError::Decode { path: String::from_str("/last_updated"), message });
        }
        let mut merged_value = target;
        merge(&mut merged_value, &self.body);
        Ok(merged_value)
    }

    /// Whether the patch carries a `last_updated` that reads as a timestamp.
    pub open spec fn last_updated_present(&self) -> bool {
        stamp_text(json_view(self.spec_body())) matches Some(t) && datetime_outcome(encode_utf8(t)) is Ok
    }
}


/// What a client should do after a PATCH that the peer refused: check the object with a GET, or,
/// when it does not exist, PUT the whole object.
#[derive(Clone, Copy, Debug, PartialEq, Eq, Structural)]
pub enum PatchFallback {
    /// GET the object to see what the peer has.
    GetThenReconcile,
    /// The object does not exist at the peer; PUT the whole object.
    PutWholeObject,
}

/// The fallback for a failed PATCH: a PUT when the peer does not know the object, a GET
/// otherwise.
pub open spec fn fallback_for(error: &OcpiError) -> PatchFallback {
    match error {
        OcpiError::NotFound(_) => PatchFallback::PutWholeObject,
        _ => PatchFallback::GetThenReconcile,
    }
}

/// Decides the fallback for a failed PATCH from the error the peer returned.
pub fn patch_fallback(error: &OcpiError) -> (r: PatchFallback)
    ensures
        r == fallback_for(error),
{
    match error {
        OcpiError::NotFound(_) => PatchFallback::PutWholeObject,
        _ => PatchFallback::GetThenReconcile,
    }
}

} // verus!
