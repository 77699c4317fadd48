//! `Extensions` — the JSON fields an OCPI object carries that the specification does not
//! document, kept so that they are written back out unchanged.
//!
//! The fields are kept in the order of their names, compared character by character by code
//! point (which is the order of their UTF-8 bytes), so the order they are written in is
//! deterministic; no name occurs twice.

use vstd::prelude::*;

use crate::transport::patch::{json_view, JsonValue, JsonView};

verus! {

/// Whether name `a` sorts before name `b`: at the first position where they differ, `a` has the
/// smaller code point, or `a` ends there and `b` goes on.
#[verifier::opaque]
pub open spec fn name_before(a: Seq<char>, b: Seq<char>) -> bool {
    exists|i: int|
        #![trigger a.subrange(0, i), b.subrange(0, i)]
        0 <= i <= a.len() && i <= b.len() && a.subrange(0, i) == b.subrange(0, i) && (
        (i == a.len() && i < b.len()) || (i < a.len() && i < b.len() && (a[i] as int) < (b[i] as int)))
}

/// The index of the first position where `a` and `b` differ, or the shorter length.
pub open spec fn first_difference(a: Seq<char>, b: Seq<char>) -> int {
    if exists|i: int| 0 <= i < a.len() && i < b.len() && a[i] != b[i] {
        choose|i: int| 0 <= i < a.len() && i < b.len() && a[i] != b[i] && forall|j: int| 0 <= j < i ==> a[j] == b[j]
    } else if a.len() <= b.len() {
        a.len() as int
    } else {
        b.len() as int
    }
}

/// Two names either are equal or one sorts before the other, and never both ways.
pub proof fn lemma_name_order_total(a: Seq<char>, b: Seq<char>)
    ensures
        a == b || name_before(a, b) || name_before(b, a),
        !(name_before(a, b) && name_before(b, a)),
        !name_before(a, a),
{
    lemma_name_before_at_difference(a, b);
    lemma_name_before_at_difference(b, a);
    lemma_name_before_at_difference(a, a);
    let d = first_difference(a, b);
    let e = first_difference(b, a);
    lemma_first_difference_symmetric(a, b);
    if d < a.len() && d < b.len() {
        assert(a[d] != b[d]);
    } else if d == a.len() && d == b.len() {
        assert(a =~= b);
    }
}

/// Where two names first differ does not depend on which comes first.
proof fn lemma_first_difference_symmetric(a: Seq<char>, b: Seq<char>)
    ensures
        first_difference(a, b) == first_difference(b, a),
{
    lemma_name_before_at_difference(a, b);
    lemma_name_before_at_difference(b, a);
    let d = first_difference(a, b);
    let e = first_difference(b, a);
    if d < e {
        if d < a.len() && d < b.len() {
            assert(b[d] == a[d]);
        }
    } else if e < d {
        if e < a.len() && e < b.len() {
            assert(a[e] == b[e]);
        }
    }
}

/// `name_before` is decided at the first position where the names differ.
pub proof fn lemma_name_before_at_difference(a: Seq<char>, b: Seq<char>)
    ensures
        ({
            let d = first_difference(a, b);
            &&& 0 <= d <= a.len() && d <= b.len()
            &&& forall|j: int| 0 <= j < d ==> a[j] == b[j]
            &&& (d < a.len() && d < b.len()) ==> a[d] != b[d]
            &&& name_before(a, b) <==> ((d == a.len() && d < b.len()) || (d < a.len() && d < b.len() && (a[d] as int)
                < (b[d] as int)))
        }),
{
    reveal(name_before);
    let d = first_difference(a, b);
    if exists|i: int| 0 <= i < a.len() && i < b.len() && a[i] != b[i] {
        let w = choose|i: int| 0 <= i < a.len() && i < b.len() && a[i] != b[i];
        lemma_least_difference(a, b, w);
    }
    assert(a.subrange(0, d) =~= b.subrange(0, d));
    if name_before(a, b) {
        let i = choose|i: int|
            #![trigger a.subrange(0, i), b.subrange(0, i)]
            0 <= i <= a.len() && i <= b.len() && a.subrange(0, i) == b.subrange(0, i) && (
            (i == a.len() && i < b.len()) || (i < a.len() && i < b.len() && (a[i] as int) < (b[i] as int)));
        assert forall|j: int| 0 <= j < i implies a[j] == b[j] by {
            assert(a.subrange(0, i)[j] == b.subrange(0, i)[j]);
        }
        if i < d {
            assert(a[i] == b[i]);
        } else if i > d {
            assert(a[d] == b[d]);
        }
    }
}

/// Below a position where two names differ there is a first one.
pub proof fn lemma_least_difference(a: Seq<char>, b: Seq<char>, w: int)
    requires
        0 <= w < a.len() && w < b.len() && a[w] != b[w],
    ensures
        exists|i: int| 0 <= i < a.len() && i < b.len() && a[i] != b[i] && forall|j: int| 0 <= j < i ==> a[j] == b[j],
    decreases w,
{
    if exists|j: int| 0 <= j < w && a[j] != b[j] {
        let j = choose|j: int| 0 <= j < w && a[j] != b[j];
        lemma_least_difference(a, b, j);
    } else {
        assert(forall|j: int| 0 <= j < w ==> a[j] == b[j]);
    }
}

/// Sorting before is transitive.
pub proof fn lemma_name_before_transitive(a: Seq<char>, b: Seq<char>, c: Seq<char>)
    requires
        name_before(a, b),
        name_before(b, c),
    ensures
        name_before(a, c),
{
    lemma_name_before_at_difference(a, b);
    lemma_name_before_at_difference(b, c);
    lemma_name_before_at_difference(a, c);
    let d1 = first_difference(a, b);
    let d2 = first_difference(b, c);
    let d3 = first_difference(a, c);
    if d1 < d2 {
        assert(forall|j: int| 0 <= j < d1 ==> a[j] == c[j]);
        if d1 < a.len() {
            assert(b[d1] == c[d1]);
            if d3 < d1 {
                assert(a[d3] == b[d3] && b[d3] == c[d3]);
            } else if d3 > d1 {
                assert(a[d1] == c[d1]);
            }
        }
    } else if d2 < d1 {
        assert(forall|j: int| 0 <= j < d2 ==> a[j] == c[j]);
        assert(a[d2] == b[d2]);
        if d3 < d2 {
            assert(a[d3] == b[d3] && b[d3] == c[d3]);
        } else if d3 > d2 {
            assert(a[d2] == c[d2]);
        }
    } else {
        assert(forall|j: int| 0 <= j < d1 ==> a[j] == c[j]);
        if d3 < d1 {
            assert(a[d3] == b[d3] && b[d3] == c[d3]);
        } else if d3 > d1 {
            if d1 < a.len() {
                assert(a[d1] == c[d1]);
            }
        }
    }
}

/// Whether the names of `members` are in strictly increasing order.
pub open spec fn names_increasing(members: Seq<(Seq<char>, JsonView)>) -> bool {
    forall|i: int, j: int| 0 <= i < j < members.len() ==> name_before(#[trigger] members[i].0, #[trigger] members[j].0)
}

/// Where a field named `name` goes among `members`: before the first name that does not sort
/// before it.
pub open spec fn position_for(members: Seq<(Seq<char>, JsonView)>, name: Seq<char>) -> int {
    if exists|k: int| 0 <= k < members.len() && !name_before(members[k].0, name) {
        choose|k: int| 0 <= k < members.len() && !name_before(members[k].0, name)
            && forall|j: int| 0 <= j < k ==> name_before(#[trigger] members[j].0, name)
    } else {
        members.len() as int
    }
}

/// The JSON fields of an OCPI object that the specification does not document, in the order of
/// their names.
#[derive(Debug)]
pub struct Extensions {
    members: Vec<(String, JsonValue)>,
}

/// The fields as the contracts see them: names and values, in order.
pub open spec fn fields_view(members: Seq<(String, JsonValue)>) -> Seq<(Seq<char>, JsonView)> {
    members.map_values(|m: (String, JsonValue)| (m.0@, json_view(m.1)))
}

impl Extensions {
    /// The fields, in the order of their names.
    pub closed spec fn spec_fields(&self) -> Seq<(Seq<char>, JsonView)> {
        fields_view(self.members@)
    }

    /// The names increase: each name once, in order.
    #[verifier::type_invariant]
    closed spec fn wf(self) -> bool {
        names_increasing(fields_view(self.members@))
    }

    /// The index of the field named `name`, if there is one.
    pub open spec fn index_of(&self, name: Seq<char>) -> Option<int> {
        if exists|i: int| 0 <= i < self.spec_fields().len() && self.spec_fields()[i].0 == name {
            Some(choose|i: int| 0 <= i < self.spec_fields().len() && self.spec_fields()[i].0 == name)
        } else {
            None
        }
    }

    /// No undocumented fields.
    pub fn new() -> (e: Self)
        ensures
            e.spec_fields().len() == 0,
    {
        Extensions { members: Vec::new() }
    }

    /// Whether no undocumented field was present.
    pub fn is_empty(&self) -> (r: bool)
        ensures
            r == (self.spec_fields().len() == 0),
    {
        self.members.len() == 0
    }

    /// How many undocumented fields are present.
    pub fn len(&self) -> (r: usize)
        ensures
            r == self.spec_fields().len(),
    {
        self.members.len()
    }

    /// Where `name` stands or would stand: the first field whose name does not sort before it.
    fn locate(&self, name: &str) -> (k: usize)
        ensures
            k == position_for(self.spec_fields(), name@),
            k <= self.spec_fields().len(),
    {
        let ghost fields = self.spec_fields();
        let mut k: usize = 0;
        while k < self.members.len()
            invariant
                k <= self.members.len(),
                fields == fields_view(self.members@),
                forall|j: int| 0 <= j < k ==> name_before(#[trigger] fields[j].0, name@),
            decreases self.members.len() - k,
        {
            if !name_less(self.members[k].0.as_str(), name) {
                proof {
                    assert(fields[k as int].0 == self.members@[k as int].0@);
                    let c = choose|x: int| 0 <= x < fields.len() && !name_before(fields[x].0, name@)
                        && forall|j: int| 0 <= j < x ==> name_before(#[trigger] fields[j].0, name@);
                    assert(c == k as int) by {
                        if c < k as int {
                            assert(name_before(fields[c].0, name@));
                        } else if c > k as int {
                            assert(name_before(fields[k as int].0, name@));
                        }
                    }
                }
                return k;
            }
            proof {
                assert(fields[k as int].0 == self.members@[k as int].0@);
            }
            k = k + 1;
        }
        k
    }

    /// The index of a field named `name` follows from where it would stand.
    proof fn lemma_index_at_position(&self, name: Seq<char>)
        requires
            self.wf(),
        ensures
            ({
                let k = position_for(self.spec_fields(), name);
                let f = self.spec_fields();
                &&& (k < f.len() && f[k].0 == name) ==> self.index_of(name) == Some(k)
                &&& !(k < f.len() && f[k].0 == name) ==> self.index_of(name) is None
            }),
    {
        let f = self.spec_fields();
        let k = position_for(f, name);
        lemma_position_facts(f, name);
        lemma_name_at_most_once(f, name, k);
    }

    /// The raw JSON value stored under `name`, if any.
    pub fn get_raw(&self, name: &str) -> (r: Option<&JsonValue>)
        ensures
            match self.index_of(name@) {
                Some(i) => r matches Some(v) && json_view(*v) == self.spec_fields()[i].1,
                None => r is None,
            },
    {
        proof {
            use_type_invariant(self);
            self.lemma_index_at_position(name@);
        }
        let k = self.locate(name);
        if k < self.members.len() && crate::strings::str_eq(self.members[k].0.as_str(), name) {
            Some(&self.members[k].1)
        } else {
            None
        }
    }

    /// Whether a field named `name` is present.
    pub fn contains_key(&self, name: &str) -> (r: bool)
        ensures
            r == (self.index_of(name@) is Some),
    {
        self.get_raw(name).is_some()
    }

    /// Stores `value` under `name`, replacing and returning any previous value; the field goes
    /// where its name sorts.
    #[verifier::rlimit(80)]
    #[verifier::spinoff_prover]
    pub fn insert_value(&mut self, name: String, value: JsonValue) -> (r: Option<JsonValue>)
        ensures
            ({
                let before = old(self).spec_fields();
                let k = position_for(before, name@);
                match old(self).index_of(name@) {
                    Some(i) => i == k && (r matches Some(v) && json_view(v) == before[i].1)
                        && final(self).spec_fields() == before.update(i, (name@, json_view(value))),
                    None => r is None && final(self).spec_fields() == before.insert(k, (name@, json_view(value))),
                }
            }),
            final(self).spec_fields() == with_field(old(self).spec_fields(), name@, json_view(value)),
    {
        proof {
            use_type_invariant(&*self);
            self.lemma_index_at_position(name@);
        }
        let ghost before = self.spec_fields();
        let k = self.locate(name.as_str());
        let ghost new_field = (name@, json_view(value));
        if k < self.members.len() && crate::strings::str_eq(self.members[k].0.as_str(), name.as_str()) {
            let mut members: Vec<(String, JsonValue)> = Vec::new();
            core::mem::swap(&mut members, &mut self.members);
            proof {
                assert(fields_view(members@) == before);
            }
            let old_field = take_field(&mut members, k);
            put_field(&mut members, k, name, value);
            proof {
                assert(fields_view(members@) =~= before.update(k as int, new_field));
                lemma_update_keeps_order(before, k as int, new_field);
            }
            self.members = members;
            Some(old_field.1)
        } else {
            let mut members: Vec<(String, JsonValue)> = Vec::new();
            core::mem::swap(&mut members, &mut self.members);
            proof {
                assert(fields_view(members@) == before);
            }
            put_field(&mut members, k, name, value);
            proof {
                assert(fields_view(members@) =~= before.insert(k as int, new_field));
                lemma_insert_keeps_order(before, k as int, new_field);
            }
            self.members = members;
            None
        }
    }

    /// Removes and returns the value stored under `name`.
    pub fn remove(&mut self, name: &str) -> (r: Option<JsonValue>)
        ensures
            match old(self).index_of(name@) {
                Some(i) => r matches Some(v) && json_view(v) == old(self).spec_fields()[i].1
                    && final(self).spec_fields() == old(self).spec_fields().remove(i),
                None => r is None && final(self).spec_fields() == old(self).spec_fields(),
            },
    {
        proof {
            use_type_invariant(&*self);
            self.lemma_index_at_position(name@);
        }
        let ghost before = self.spec_fields();
        let k = self.locate(name);
        if k < self.members.len() && crate::strings::str_eq(self.members[k].0.as_str(), name) {
            let mut members: Vec<(String, JsonValue)> = Vec::new();
            core::mem::swap(&mut members, &mut self.members);
            proof {
                assert(fields_view(members@) == before);
            }
            let old_field = take_field(&mut members, k);
            proof {
                assert(before[k as int].0 == name@);
                assert(old(self).index_of(name@) == Some(k as int));
                lemma_remove_keeps_order(before, k as int);
            }
            self.members = members;
            Some(old_field.1)
        } else {
            proof {
                assert(old(self).index_of(name@) is None);
            }
            None
        }
    }

    /// The field names, in order.
    pub fn keys(&self) -> (r: Vec<&str>)
        ensures
            r@.len() == self.spec_fields().len(),
            forall|i: int| 0 <= i < r@.len() ==> r@[i]@ == #[trigger] self.spec_fields()[i].0,
            forall|i: int, j: int| 0 <= i < j < r@.len() ==> name_before(#[trigger] r@[i]@, #[trigger] r@[j]@),
    {
        proof {
            use_type_invariant(self);
        }
        let mut out: Vec<&str> = Vec::new();
        let mut i: usize = 0;
        while i < self.members.len()
            invariant
                i <= self.members.len(),
                out@.len() == i,
                forall|j: int| 0 <= j < i ==> out@[j]@ == #[trigger] fields_view(self.members@)[j].0,
            decreases self.members.len() - i,
        {
            out.push(self.members[i].0.as_str());
            i = i + 1;
        }
        proof {
            let f = fields_view(self.members@);
            assert forall|a: int, b: int| 0 <= a < b < out@.len() implies name_before(
                #[trigger] out@[a]@,
                #[trigger] out@[b]@,
            ) by {
                assert(out@[a]@ == f[a].0 && out@[b]@ == f[b].0);
                assert(name_before(f[a].0, f[b].0));
            }
        }
        out
    }

    /// The fields, in the order of their names.
    pub fn iter(&self) -> (r: Vec<(&String, &JsonValue)>)
        ensures
            r@.len() == self.spec_fields().len(),
            forall|i: int|
                0 <= i < r@.len() ==> (r@[i].0@, json_view(*r@[i].1)) == #[trigger] self.spec_fields()[i],
    {
        let mut out: Vec<(&String, &JsonValue)> = Vec::new();
        let mut i: usize = 0;
        while i < self.members.len()
            invariant
                i <= self.members.len(),
                out@.len() == i,
                forall|j: int|
                    0 <= j < i ==> (out@[j].0@, json_view(*out@[j].1)) == #[trigger] fields_view(self.members@)[j],
            decreases self.members.len() - i,
        {
            let m = &self.members[i];
            out.push((&m.0, &m.1));
            i = i + 1;
        }
        out
    }
}

/// What `position_for` gives: every name before it sorts before `name`, and the one there, if
/// any, does not.
proof fn lemma_position_facts(f: Seq<(Seq<char>, JsonView)>, name: Seq<char>)
    ensures
        0 <= position_for(f, name) <= f.len(),
        forall|j: int| 0 <= j < position_for(f, name) ==> name_before(#[trigger] f[j].0, name),
        position_for(f, name) < f.len() ==> !name_before(f[position_for(f, name)].0, name),
{
    if exists|x: int| 0 <= x < f.len() && !name_before(f[x].0, name) {
        let w = choose|x: int| 0 <= x < f.len() && !name_before(f[x].0, name);
        lemma_least_not_before(f, name, w);
    } else {
        assert forall|j: int| 0 <= j < f.len() implies name_before(#[trigger] f[j].0, name) by {
        }
    }
}

/// Below a name that does not sort before `name` there is a first one.
proof fn lemma_least_not_before(f: Seq<(Seq<char>, JsonView)>, name: Seq<char>, w: int)
    requires
        0 <= w < f.len() && !name_before(f[w].0, name),
    ensures
        exists|k: int| 0 <= k < f.len() && !name_before(f[k].0, name)
            && forall|j: int| 0 <= j < k ==> name_before(#[trigger] f[j].0, name),
    decreases w,
{
    if exists|j: int| 0 <= j < w && !name_before(f[j].0, name) {
        let j = choose|j: int| 0 <= j < w && !name_before(f[j].0, name);
        lemma_least_not_before(f, name, j);
    } else {
        assert forall|j: int| 0 <= j < w implies name_before(#[trigger] f[j].0, name) by {
        }
    }
}

/// In fields whose names increase, `name` can only stand where it would be placed.
proof fn lemma_name_at_most_once(f: Seq<(Seq<char>, JsonView)>, name: Seq<char>, k: int)
    requires
        names_increasing(f),
        0 <= k <= f.len(),
        forall|j: int| 0 <= j < k ==> name_before(#[trigger] f[j].0, name),
        k < f.len() ==> !name_before(f[k].0, name),
    ensures
        forall|i: int| 0 <= i < f.len() && i != k ==> #[trigger] f[i].0 != name,
        (k < f.len() && f[k].0 == name) ==> (exists|i: int| 0 <= i < f.len() && f[i].0 == name) && (choose|i: int|
            0 <= i < f.len() && f[i].0 == name) == k,
        !(k < f.len() && f[k].0 == name) ==> !(exists|i: int| 0 <= i < f.len() && f[i].0 == name),
{
    assert forall|i: int| 0 <= i < f.len() && i != k implies #[trigger] f[i].0 != name by {
        if i < k {
            lemma_name_order_total(name, name);
        } else {
            assert(name_before(f[k].0, f[i].0));
            lemma_name_order_total(f[k].0, name);
            if f[k].0 != name {
                lemma_name_before_transitive(name, f[k].0, f[i].0);
                lemma_name_order_total(name, name);
            } else {
                lemma_name_order_total(name, name);
            }
        }
    }
}

/// Puts a field named `name` at index `k` of `members`.
fn put_field(members: &mut Vec<(String, JsonValue)>, k: usize, name: String, value: JsonValue)
    requires
        k <= old(members)@.len(),
    ensures
        final(members)@.len() == old(members)@.len() + 1,
        fields_view(final(members)@) == fields_view(old(members)@).insert(k as int, (name@, json_view(value))),
{
    let ghost all = members@;
    let ghost field = (name@, json_view(value));
    members.insert(k, (name, value));
    proof {
        assert(fields_view(members@) =~= fields_view(all).insert(k as int, field));
    }
}

/// Takes field `k` out of `members`.
fn take_field(members: &mut Vec<(String, JsonValue)>, k: usize) -> (r: (String, JsonValue))
    requires
        k < old(members)@.len(),
    ensures
        final(members)@.len() == old(members)@.len() - 1,
        fields_view(final(members)@) == fields_view(old(members)@).remove(k as int),
        (r.0@, json_view(r.1)) == fields_view(old(members)@)[k as int],
{
    let ghost all = members@;
    let r = members.remove(k);
    proof {
        assert(fields_view(members@) =~= fields_view(all).remove(k as int));
    }
    r
}

/// Removing a field keeps the names in order.
proof fn lemma_remove_keeps_order(fields: Seq<(Seq<char>, JsonView)>, k: int)
    requires
        names_increasing(fields),
        0 <= k < fields.len(),
    ensures
        names_increasing(fields.remove(k)),
{
    let u = fields.remove(k);
    assert forall|i: int, j: int| 0 <= i < j < u.len() implies name_before(#[trigger] u[i].0, #[trigger] u[j].0) by {
        let a = if i < k { i } else { i + 1 };
        let b = if j < k { j } else { j + 1 };
        assert(u[i] == fields[a] && u[j] == fields[b]);
        assert(name_before(fields[a].0, fields[b].0));
    }
}

/// Replacing the value of a field keeps the names in order.
proof fn lemma_update_keeps_order(fields: Seq<(Seq<char>, JsonView)>, k: int, field: (Seq<char>, JsonView))
    requires
        names_increasing(fields),
        0 <= k < fields.len(),
        fields[k].0 == field.0,
    ensures
        names_increasing(fields.update(k, field)),
{
    let u = fields.update(k, field);
    assert forall|i: int, j: int| 0 <= i < j < u.len() implies name_before(#[trigger] u[i].0, #[trigger] u[j].0) by {
        assert(u[i].0 == fields[i].0 && u[j].0 == fields[j].0);
    }
}

/// Adding a field where its name sorts keeps the names in order.
proof fn lemma_insert_keeps_order(fields: Seq<(Seq<char>, JsonView)>, k: int, field: (Seq<char>, JsonView))
    requires
        names_increasing(fields),
        k == position_for(fields, field.0),
        !(k < fields.len() && fields[k].0 == field.0),
    ensures
        names_increasing(fields.insert(k, field)),
{
    let name = field.0;
    lemma_position_facts(fields, name);
    if k < fields.len() {
        lemma_name_order_total(fields[k].0, name);
    }
    let u = fields.insert(k, field);
    assert forall|i: int, j: int| 0 <= i < j < u.len() implies name_before(#[trigger] u[i].0, #[trigger] u[j].0) by {
        lemma_insert_pair(fields, k, field, i, j);
    }
}

/// One pair of the fields after an insertion where the name sorts.
proof fn lemma_insert_pair(fields: Seq<(Seq<char>, JsonView)>, k: int, field: (Seq<char>, JsonView), i: int, j: int)
    requires
        names_increasing(fields),
        0 <= k <= fields.len(),
        forall|x: int| 0 <= x < k ==> name_before(#[trigger] fields[x].0, field.0),
        k < fields.len() ==> name_before(field.0, fields[k].0),
        0 <= i < j < fields.len() + 1,
    ensures
        name_before(fields.insert(k, field)[i].0, fields.insert(k, field)[j].0),
{
    let u = fields.insert(k, field);
    let name = field.0;
    if j < k {
        assert(u[i] == fields[i] && u[j] == fields[j]);
        assert(name_before(fields[i].0, fields[j].0));
    } else if j == k {
        assert(u[i] == fields[i] && u[j] == field);
    } else if i == k {
        assert(u[i] == field && u[j] == fields[j - 1]);
        if j - 1 > k {
            assert(name_before(fields[k].0, fields[j - 1].0));
            lemma_name_before_transitive(name, fields[k].0, fields[j - 1].0);
        }
    } else if i < k {
        assert(u[i] == fields[i] && u[j] == fields[j - 1]);
        assert(name_before(fields[i].0, name));
        if j - 1 == k {
            lemma_name_before_transitive(fields[i].0, name, fields[k].0);
        } else {
            assert(name_before(fields[k].0, fields[j - 1].0));
            lemma_name_before_transitive(name, fields[k].0, fields[j - 1].0);
            lemma_name_before_transitive(fields[i].0, name, fields[j - 1].0);
        }
    } else {
        assert(u[i] == fields[i - 1] && u[j] == fields[j - 1]);
        assert(name_before(fields[i - 1].0, fields[j - 1].0));
    }
}

/// Whether name `a` sorts before name `b`, compared by code point.
pub fn name_less(a: &str, b: &str) -> (r: bool)
    ensures
        r == name_before(a@, b@),
{
    let n = a.unicode_len();
    let m = b.unicode_len();
    let mut i: usize = 0;
    while i < n && i < m
        invariant
            n == a@.len() && m == b@.len(),
            i <= n && i <= m,
            a@.subrange(0, i as int) == b@.subrange(0, i as int),
        decreases n - i,
    {
        let x = a.get_char(i);
        let y = b.get_char(i);
        if x != y {
            proof {
                assert(forall|j: int| 0 <= j < i ==> a@[j] == b@[j]) by {
                    assert forall|j: int| 0 <= j < i implies a@[j] == b@[j] by {
                        assert(a@.subrange(0, i as int)[j] == b@.subrange(0, i as int)[j]);
                    }
                }
                lemma_name_before_at_difference(a@, b@);
                lemma_first_difference_is(a@, b@, i as int);
            }
            return (x as u32) < (y as u32);
        }
        proof {
            assert(a@.subrange(0, i as int + 1) =~= a@.subrange(0, i as int).push(x));
            assert(b@.subrange(0, i as int + 1) =~= b@.subrange(0, i as int).push(y));
        }
        i = i + 1;
    }
    proof {
        assert forall|j: int| 0 <= j < i implies a@[j] == b@[j] by {
            assert(a@.subrange(0, i as int)[j] == b@.subrange(0, i as int)[j]);
        }
        lemma_name_before_at_difference(a@, b@);
        lemma_first_difference_is(a@, b@, i as int);
    }
    i == n && i < m
}

/// The first difference is at `i` when the names agree below it and differ or end there.
proof fn lemma_first_difference_is(a: Seq<char>, b: Seq<char>, i: int)
    requires
        0 <= i <= a.len() && i <= b.len(),
        forall|j: int| 0 <= j < i ==> a[j] == b[j],
        (i < a.len() && i < b.len() && a[i] != b[i]) || i == a.len() || i == b.len(),
    ensures
        first_difference(a, b) == i,
{
    lemma_name_before_at_difference(a, b);
    let d = first_difference(a, b);
    if d < i {
        assert(a[d] == b[d]);
    } else if d > i {
        if i < a.len() && i < b.len() {
            assert(a[i] == b[i]);
        }
    }
}

/// `fields` with a field named `name` holding `value`: the field of that name replaced, or a new
/// one where its name sorts.
pub open spec fn with_field(fields: Seq<(Seq<char>, JsonView)>, name: Seq<char>, value: JsonView) -> Seq<(Seq<char>, JsonView)> {
    let k = position_for(fields, name);
    if k < fields.len() && fields[k].0 == name {
        fields.update(k, (name, value))
    } else {
        fields.insert(k, (name, value))
    }
}

/// What is stored is what is read back: after a field is stored under `name`, the names are
/// still in order, `name` occurs exactly once, and it holds the value stored.
pub proof fn lemma_read_after_store(fields: Seq<(Seq<char>, JsonView)>, name: Seq<char>, value: JsonView)
    requires
        names_increasing(fields),
    ensures
        names_increasing(with_field(fields, name, value)),
        exists|i: int|
            0 <= i < with_field(fields, name, value).len() && #[trigger] with_field(fields, name, value)[i] == (
            name,
            value,
        ),
        forall|i: int, j: int|
            0 <= i < with_field(fields, name, value).len() && 0 <= j < with_field(fields, name, value).len()
                && #[trigger] with_field(fields, name, value)[i].0 == name && #[trigger] with_field(
                fields,
                name,
                value,
            )[j].0 == name ==> i == j,
{
    let k = position_for(fields, name);
    let g = with_field(fields, name, value);
    lemma_position_facts(fields, name);
    if k < fields.len() && fields[k].0 == name {
        lemma_update_keeps_order(fields, k, (name, value));
        assert(g[k] == (name, value));
    } else {
        lemma_insert_keeps_order(fields, k, (name, value));
        assert(g[k] == (name, value));
    }
    assert forall|i: int, j: int|
        0 <= i < g.len() && 0 <= j < g.len() && #[trigger] g[i].0 == name && #[trigger] g[j].0 == name implies i == j by {
        if i < j {
            assert(name_before(g[i].0, g[j].0));
            lemma_name_order_total(name, name);
        } else if j < i {
            assert(name_before(g[j].0, g[i].0));
            lemma_name_order_total(name, name);
        }
    }
}

/// What is removed is gone: after the field named `name` is removed, no field has that name.
pub proof fn lemma_gone_after_remove(fields: Seq<(Seq<char>, JsonView)>, name: Seq<char>, i: int)
    requires
        names_increasing(fields),
        0 <= i < fields.len(),
        fields[i].0 == name,
    ensures
        forall|j: int| 0 <= j < fields.remove(i).len() ==> #[trigger] fields.remove(i)[j].0 != name,
{
    let r = fields.remove(i);
    assert forall|j: int| 0 <= j < r.len() implies #[trigger] r[j].0 != name by {
        lemma_name_order_total(name, name);
        if j < i {
            assert(r[j] == fields[j]);
            assert(name_before(fields[j].0, fields[i].0));
        } else {
            assert(r[j] == fields[j + 1]);
            assert(name_before(fields[i].0, fields[j + 1].0));
        }
    }
}

} // verus!
