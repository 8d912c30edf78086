use vstd::prelude::*;

use crate::number::{compare, num_le, Number};

verus! {

/// A JSON value.
///
/// Object members keep the order in which they were given; a document read
/// from text holds each key once.
#[derive(Debug)]
pub enum Json {
    Null,
    Bool(bool),
    Number(Number),
    String(String),
    Array(Vec<Json>),
    Object(Vec<(String, Json)>),
}

/// The mathematical model of a [`Json`] value.
pub enum JsonV {
    Null,
    Bool(bool),
    Number(Number),
    String(Seq<char>),
    Array(Seq<JsonV>),
    Object(Seq<(Seq<char>, JsonV)>),
}

/// The model of a JSON value.
pub open spec fn json_view(j: Json) -> JsonV
    decreases j,
{
    match j {
        Json::Null => JsonV::Null,
        Json::Bool(b) => JsonV::Bool(b),
        Json::Number(n) => JsonV::Number(n),
        Json::String(s) => JsonV::String(s@),
        Json::Array(a) => JsonV::Array(elems_view(a@)),
        Json::Object(m) => JsonV::Object(members_view(m@)),
    }
}

/// The models of a sequence of JSON values.
pub open spec fn elems_view(s: Seq<Json>) -> Seq<JsonV>
    decreases s,
{
    if s.len() == 0 {
        Seq::empty()
    } else {
        elems_view(s.drop_last()).push(json_view(s.last()))
    }
}

/// The models of a sequence of object members.
pub open spec fn members_view(s: Seq<(String, Json)>) -> Seq<(Seq<char>, JsonV)>
    decreases s,
{
    if s.len() == 0 {
        Seq::empty()
    } else {
        members_view(s.drop_last()).push((s.last().0@, json_view(s.last().1)))
    }
}

/// Whether two JSON values are equal: numbers by value, strings by their
/// characters, arrays element by element, and objects as maps: as many
/// members, each member of `a` matched by a member of `b` with the same key
/// and an equal value (objects hold each key once).
pub open spec fn json_eq(a: JsonV, b: JsonV) -> bool
    decreases a, 2int, 0int,
{
    match (a, b) {
        (JsonV::Null, JsonV::Null) => true,
        (JsonV::Bool(x), JsonV::Bool(y)) => x == y,
        (JsonV::Number(x), JsonV::Number(y)) => num_le(x, y) && num_le(y, x),
        (JsonV::String(x), JsonV::String(y)) => x == y,
        (JsonV::Array(x), JsonV::Array(y)) => x.len() == y.len() && elems_eq(x, y, 0),
        (JsonV::Object(x), JsonV::Object(y)) => x.len() == y.len() && members_in(x, y, 0),
        _ => false,
    }
}

/// Elements `i..` of `x` equal those of `y` at the same places.
pub open spec fn elems_eq(x: Seq<JsonV>, y: Seq<JsonV>, i: int) -> bool
    decreases x, 1int, x.len() - i,
{
    if i < 0 || i >= x.len() {
        true
    } else {
        i < y.len() && json_eq(x[i], y[i]) && elems_eq(x, y, i + 1)
    }
}

/// Each member `i..` of `x` has a member of `y` with its key and an equal
/// value.
pub open spec fn members_in(x: Seq<(Seq<char>, JsonV)>, y: Seq<(Seq<char>, JsonV)>, i: int) -> bool
    decreases x, 1int, x.len() - i,
{
    if i < 0 || i >= x.len() {
        true
    } else {
        has_equal(y, x[i].0, x[i].1, 0) && members_in(x, y, i + 1)
    }
}

/// Some member `j..` of `y` has key `k` and a value equal to `v`.
pub open spec fn has_equal(y: Seq<(Seq<char>, JsonV)>, k: Seq<char>, v: JsonV, j: int) -> bool
    decreases v, 3int, y.len() - j,
{
    if j < 0 || j >= y.len() {
        false
    } else {
        (y[j].0 == k && json_eq(v, y[j].1)) || has_equal(y, k, v, j + 1)
    }
}

impl Clone for Json {
    /// A copy of the value; see [`Json::copy`].
    fn clone(&self) -> Self {
        self.copy()
    }
}

impl PartialEq for Json {
    /// Equality as [`json_eq`] states it.
    fn eq(&self, other: &Json) -> bool {
        self.equals(other)
    }
}

impl vstd::std_specs::cmp::PartialEqSpecImpl for Json {
    open spec fn obeys_eq_spec() -> bool {
        true
    }

    open spec fn eq_spec(&self, other: &Json) -> bool {
        json_eq(self@, other@)
    }
}

impl View for Json {
    type V = JsonV;

    open spec fn view(&self) -> JsonV {
        json_view(*self)
    }
}

/// The models of a sequence line up with its elements.
pub proof fn lemma_elems_view(s: Seq<Json>)
    ensures
        elems_view(s).len() == s.len(),
        forall|i: int| 0 <= i < s.len() ==> #[trigger] elems_view(s)[i] == json_view(s[i]),
    decreases s.len(),
{
    if s.len() > 0 {
        lemma_elems_view(s.drop_last());
    }
}

/// The models of object members line up with the members.
pub proof fn lemma_members_view(s: Seq<(String, Json)>)
    ensures
        members_view(s).len() == s.len(),
        forall|i: int|
            0 <= i < s.len() ==> #[trigger] members_view(s)[i] == (s[i].0@, json_view(s[i].1)),
    decreases s.len(),
{
    if s.len() > 0 {
        lemma_members_view(s.drop_last());
    }
}

/// Whether two strings hold the same characters.
pub fn str_equal(a: &str, b: &str) -> (r: bool)
    ensures
        r == (a@ == b@),
{
    let n = a.unicode_len();
    if n != b.unicode_len() {
        return false;
    }
    let mut i: usize = 0;
    while i < n
        invariant
            n == a@.len(),
            n == b@.len(),
            i <= n,
            forall|k: int| 0 <= k < i ==> a@[k] == b@[k],
        decreases n - i,
    {
        if a.get_char(i) != b.get_char(i) {
            return false;
        }
        i = i + 1;
    }
    assert(a@ =~= b@);
    true
}

impl Json {
    /// A copy of the value.
    pub fn copy(&self) -> (r: Json)
        ensures
            r@ == self@,
        decreases self,
    {
        match self {
            Json::Null => Json::Null,
            Json::Bool(b) => Json::Bool(*b),
            Json::Number(n) => Json::Number(*n),
            Json::String(s) => Json::String(s.clone()),
            Json::Array(a) => {
                let mut out: Vec<Json> = Vec::new();
                let mut i: usize = 0;
                while i < a.len()
                    invariant
                        *self == Json::Array(*a),
                        i <= a.len(),
                        out@.len() == i,
                        forall|k: int| 0 <= k < i ==> json_view(#[trigger] out@[k]) == json_view(a@[k]),
                    decreases a.len() - i,
                {
                    proof {
                        assert(decreases_to!(*self => self->Array_0));
                        assert(decreases_to!(*a => a@));
                        assert(decreases_to!(a@ => a@[i as int]));
                    }
                    let c = a[i].copy();
                    out.push(c);
                    i = i + 1;
                }
                proof {
                    lemma_elems_view(a@);
                    lemma_elems_view(out@);
                    assert(elems_view(out@) =~= elems_view(a@));
                }
                Json::Array(out)
            },
            Json::Object(m) => {
                let mut out: Vec<(String, Json)> = Vec::new();
                let mut i: usize = 0;
                while i < m.len()
                    invariant
                        *self == Json::Object(*m),
                        i <= m.len(),
                        out@.len() == i,
                        forall|k: int|
                            0 <= k < i ==> (#[trigger] out@[k]).0@ == m@[k].0@ && json_view(out@[k].1)
                                == json_view(m@[k].1),
                    decreases m.len() - i,
                {
                    let k = m[i].0.clone();
                    proof {
                        assert(decreases_to!(*self => self->Object_0));
                        assert(decreases_to!(*m => m@));
                        assert(decreases_to!(m@ => m@[i as int]));
                        assert(decreases_to!(m@[i as int] => m@[i as int].1));
                    }
                    let c = m[i].1.copy();
                    out.push((k, c));
                    i = i + 1;
                }
                proof {
                    lemma_members_view(m@);
                    lemma_members_view(out@);
                    assert(members_view(out@) =~= members_view(m@));
                }
                Json::Object(out)
            },
        }
    }

    /// Whether two values are equal; see [`json_eq`].
    pub fn equals(&self, other: &Json) -> (r: bool)
        ensures
            r == json_eq(self@, other@),
        decreases self, 1int,
    {
        match (self, other) {
            (Json::Null, Json::Null) => true,
            (Json::Bool(a), Json::Bool(b)) => *a == *b,
            (Json::Number(a), Json::Number(b)) => compare(*a, *b, false) && compare(*b, *a, false),
            (Json::String(a), Json::String(b)) => str_equal(a.as_str(), b.as_str()),
            (Json::Array(a), Json::Array(b)) => {
                proof {
                    lemma_elems_view(a@);
                    lemma_elems_view(b@);
                }
                if a.len() != b.len() {
                    return false;
                }
                let ghost av = elems_view(a@);
                let ghost bv = elems_view(b@);
                let mut i: usize = 0;
                while i < a.len()
                    invariant
                        *self == Json::Array(*a),
                        *other == Json::Array(*b),
                        i <= a.len(),
                        a.len() == b.len(),
                        av == elems_view(a@),
                        bv == elems_view(b@),
                        av.len() == a@.len(),
                        bv.len() == b@.len(),
                        forall|x: int| 0 <= x < a@.len() ==> #[trigger] av[x] == json_view(a@[x]),
                        forall|x: int| 0 <= x < b@.len() ==> #[trigger] bv[x] == json_view(b@[x]),
                        elems_eq(av, bv, 0) == elems_eq(av, bv, i as int),
                    decreases a.len() - i,
                {
                    proof {
                        assert(decreases_to!(*self => self->Array_0));
                        assert(decreases_to!(*a => a@));
                        assert(decreases_to!(a@ => a@[i as int]));
                    }
                    if !a[i].equals(&b[i]) {
                        return false;
                    }
                    i = i + 1;
                }
                true
            },
            (Json::Object(a), Json::Object(b)) => {
                proof {
                    lemma_members_view(a@);
                    lemma_members_view(b@);
                }
                if a.len() != b.len() {
                    return false;
                }
                let ghost av = members_view(a@);
                let ghost bv = members_view(b@);
                let mut i: usize = 0;
                while i < a.len()
                    invariant
                        *self == Json::Object(*a),
                        *other == Json::Object(*b),
                        i <= a.len(),
                        a.len() == b.len(),
                        av == members_view(a@),
                        bv == members_view(b@),
                        av.len() == a@.len(),
                        bv.len() == b@.len(),
                        forall|x: int| 0 <= x < a@.len() ==> #[trigger] av[x] == (a@[x].0@, json_view(a@[x].1)),
                        forall|x: int| 0 <= x < b@.len() ==> #[trigger] bv[x] == (b@[x].0@, json_view(b@[x].1)),
                        members_in(av, bv, 0) == members_in(av, bv, i as int),
                    decreases a.len() - i,
                {
                    proof {
                        assert(decreases_to!(*self => self->Object_0));
                        assert(decreases_to!(*a => a@));
                        assert(decreases_to!(a@ => a@[i as int]));
                        assert(decreases_to!(a@[i as int] => a@[i as int].1));
                    }
                    let mut j: usize = 0;
                    let mut found = false;
                    while j < b.len()
                        invariant
                            *self == Json::Object(*a),
                            i < a.len(),
                            j <= b.len(),
                            av == members_view(a@),
                            bv == members_view(b@),
                            av.len() == a@.len(),
                            bv.len() == b@.len(),
                            forall|x: int| 0 <= x < a@.len() ==> #[trigger] av[x] == (a@[x].0@, json_view(a@[x].1)),
                            forall|x: int| 0 <= x < b@.len() ==> #[trigger] bv[x] == (b@[x].0@, json_view(b@[x].1)),
                            found ==> has_equal(bv, av[i as int].0, av[i as int].1, 0),
                            !found ==> has_equal(bv, av[i as int].0, av[i as int].1, 0) == has_equal(bv, av[i as int].0, av[i as int].1, j as int),
                        decreases b.len() - j,
                    {
                        proof {
                            assert(decreases_to!(*self => self->Object_0));
                            assert(decreases_to!(*a => a@));
                            assert(decreases_to!(a@ => a@[i as int]));
                            assert(decreases_to!(a@[i as int] => a@[i as int].1));
                        }
                        if !found && str_equal(a[i].0.as_str(), b[j].0.as_str()) && a[i].1.equals(&b[j].1) {
                            found = true;
                        }
                        j = j + 1;
                    }
                    if !found {
                        return false;
                    }
                    i = i + 1;
                }
                true
            },
            _ => false,
        }
    }
}

} // verus!
