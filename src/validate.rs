use vstd::prelude::*;

use crate::condition::{has_type, CondV, Condition, Dependency, DependencyV};
use crate::context::{Context, JsonSchema, NodeV, Validator, ValidatorV};
use crate::errors::{outcome_view, ValidationError, ValidationErrorV};
use crate::json::{json_eq, lemma_elems_view, lemma_members_view, str_equal, Json, JsonV};
use crate::number::{compare, multiple_of, num_le, num_lt, num_multiple_of};
use crate::pattern::regex_finds;

verus! {

/// How many schema links (`$ref` targets and subschemas) one validation may
/// follow before it gives up with `DepthExceeded`.
pub const MAX_DEPTH: u64 = 64;

pub type Registry = Map<Seq<char>, NodeV>;

/// Whether an error met while trying the branch schema at `u` (of `anyOf`,
/// `oneOf`, `not` or `contains`) stops validation: the link limit was
/// reached, or the branch URI itself is not in the registry. Any other error
/// only means that the branch does not accept the value.
pub open spec fn branch_stops(reg: Registry, u: Seq<char>, e: ValidationErrorV) -> bool {
    e is DepthExceeded || !reg.contains_key(u)
}

/// Whether an object has a member with this key.
pub open spec fn has_key(m: Seq<(Seq<char>, JsonV)>, k: Seq<char>) -> bool {
    exists|i: int| 0 <= i < m.len() && #[trigger] m[i].0 == k
}

/// The schema that the first entry named `k` gives, if any.
pub open spec fn named_schema(names: Seq<(Seq<char>, Seq<char>)>, k: Seq<char>, i: int) -> Option<Seq<char>>
    decreases names.len() - i,
{
    if i >= names.len() || i < 0 {
        None
    } else if names[i].0 == k {
        Some(names[i].1)
    } else {
        named_schema(names, k, i + 1)
    }
}

/// Whether the object has a member for every name.
pub open spec fn all_present(m: Seq<(Seq<char>, JsonV)>, ns: Seq<Seq<char>>) -> bool {
    forall|i: int| 0 <= i < ns.len() ==> has_key(m, #[trigger] ns[i])
}

/// No element equals a later one (see [`json_eq`]).
pub open spec fn all_distinct(a: Seq<JsonV>) -> bool {
    forall|i: int, j: int| 0 <= i < j < a.len() ==> !json_eq(#[trigger] a[i], #[trigger] a[j])
}

/// Some listed value equals the value (see [`json_eq`]).
pub open spec fn listed(es: Seq<JsonV>, v: JsonV) -> bool {
    exists|i: int| 0 <= i < es.len() && json_eq(#[trigger] es[i], v)
}

/// The value belongs to one of the types.
pub open spec fn some_type(ts: Seq<crate::condition::Type>, v: JsonV) -> bool {
    exists|i: int| 0 <= i < ts.len() && has_type(#[trigger] ts[i], v)
}

/// Whether some pattern matches the key.
pub open spec fn some_pattern_matches(pats: Seq<(Seq<char>, Seq<char>)>, k: Seq<char>) -> bool {
    exists|j: int| 0 <= j < pats.len() && regex_finds(#[trigger] pats[j].0, k)
}

/// Whether a condition that consults no other schema holds of the value.
/// Each applies to one JSON type and holds of values of any other type.
pub open spec fn holds(c: CondV, v: JsonV) -> bool {
    match c {
        CondV::MultipleOf(m) => v is Number ==> num_multiple_of(v->Number_0, m),
        CondV::Maximum(m) => v is Number ==> num_le(v->Number_0, m),
        CondV::ExclusiveMaximum(m) => v is Number ==> num_lt(v->Number_0, m),
        CondV::Minimum(m) => v is Number ==> num_le(m, v->Number_0),
        CondV::ExclusiveMinimum(m) => v is Number ==> num_lt(m, v->Number_0),
        CondV::MaxLength(k) => v is String ==> v->String_0.len() <= k,
        CondV::MinLength(k) => v is String ==> v->String_0.len() >= k,
        CondV::Pattern(p) => v is String ==> regex_finds(p, v->String_0),
        CondV::MaxItems(k) => v is Array ==> v->Array_0.len() <= k,
        CondV::MinItems(k) => v is Array ==> v->Array_0.len() >= k,
        CondV::UniqueItems(u) => (v is Array && u) ==> all_distinct(v->Array_0),
        CondV::MaxProperties(k) => v is Object ==> v->Object_0.len() <= k,
        CondV::MinProperties(k) => v is Object ==> v->Object_0.len() >= k,
        CondV::Required(ns) => v is Object ==> all_present(v->Object_0, ns),
        CondV::Enum(es) => listed(es, v),
        CondV::Const(k) => json_eq(v, k),
        CondV::Type(ts) => some_type(ts, v),
        _ => true,
    }
}

/// `Ok` when `ok`, else the failure of condition `c`.
pub open spec fn verdict(ok: bool, c: CondV) -> Result<(), ValidationErrorV> {
    if ok {
        Ok(())
    } else {
        Err(ValidationErrorV::ConditionFailed(c))
    }
}

/// The outcome of validating `v` against the schema at `uri`, following at
/// most `fuel` schema links.
pub open spec fn check_uri(reg: Registry, uri: Seq<char>, v: JsonV, fuel: nat) -> Result<(), ValidationErrorV>
    decreases fuel, 0int, 0int,
{
    if fuel == 0 {
        Err(ValidationErrorV::DepthExceeded(uri))
    } else if !reg.contains_key(uri) {
        Err(ValidationErrorV::BadReference(uri))
    } else {
        check_validator(reg, reg[uri].validator, v, (fuel - 1) as nat)
    }
}

/// The outcome of validating `v` against a validator.
pub open spec fn check_validator(reg: Registry, val: ValidatorV, v: JsonV, fuel: nat) -> Result<(), ValidationErrorV>
    decreases fuel, 6int, 0int,
{
    match val {
        ValidatorV::Anything => Ok(()),
        ValidatorV::Nothing => Err(ValidationErrorV::NoValuesPass(v)),
        ValidatorV::Reference(u) => check_uri(reg, u, v, fuel),
        ValidatorV::Conditions(cs) => check_conds(reg, cs, v, fuel, 0),
    }
}

/// Conditions `i..` in order: the first failure, else success.
pub open spec fn check_conds(reg: Registry, cs: Seq<CondV>, v: JsonV, fuel: nat, i: int) -> Result<(), ValidationErrorV>
    decreases fuel, 5int, cs.len() - i,
{
    if i < 0 || i >= cs.len() {
        Ok(())
    } else {
        match check_cond(reg, cs[i], v, fuel) {
            Err(e) => Err(e),
            Ok(()) => check_conds(reg, cs, v, fuel, i + 1),
        }
    }
}

/// The outcome of one condition. Conditions that validate the value (or its
/// parts) against other schemas pass on the first error of those schemas;
/// `anyOf`, `oneOf`, `not` and `contains` count a branch that fails as not
/// accepting the value, pass on only the errors that stop validation (see
/// [`branch_stops`]), and otherwise fail as themselves.
pub open spec fn check_cond(reg: Registry, c: CondV, v: JsonV, fuel: nat) -> Result<(), ValidationErrorV>
    decreases fuel, 4int, 0int,
{
    match c {
        CondV::AllOf(us) => all_from(reg, us, v, fuel, 0),
        CondV::AnyOf(us) => match any_from(reg, us, v, fuel, 0) {
            Err(e) => Err(e),
            Ok(found) => verdict(found, c),
        },
        CondV::OneOf(us) => match count_from(reg, us, v, fuel, 0) {
            Err(e) => Err(e),
            Ok(n) => verdict(n == 1, c),
        },
        CondV::Not(u) => match check_uri(reg, u, v, fuel) {
            Ok(()) => verdict(false, c),
            Err(e) => if branch_stops(reg, u, e) {
                Err(e)
            } else {
                Ok(())
            },
        },
        CondV::Items(pos, trailing) => match v {
            JsonV::Array(a) => items_from(reg, pos, trailing, a, fuel, 0),
            _ => Ok(()),
        },
        CondV::Contains(u) => match v {
            JsonV::Array(a) => match elems_any(reg, u, a, fuel, 0) {
                Err(e) => Err(e),
                Ok(found) => verdict(found, c),
            },
            _ => Ok(()),
        },
        CondV::Properties(names, pats, additional) => match v {
            JsonV::Object(m) => members_from(reg, names, pats, additional, m, fuel, 0),
            _ => Ok(()),
        },
        CondV::Dependencies(ds) => match v {
            JsonV::Object(m) => match deps_from(reg, ds, v, m, fuel, 0) {
                Err(e) => Err(e),
                Ok(met) => verdict(met, c),
            },
            _ => Ok(()),
        },
        CondV::PropertyNames(u) => match v {
            JsonV::Object(m) => keys_from(reg, u, m, fuel, 0),
            _ => Ok(()),
        },
        _ => verdict(holds(c, v), c),
    }
}

/// Schemas `i..` all accept `v`: the first error, else success.
pub open spec fn all_from(reg: Registry, us: Seq<Seq<char>>, v: JsonV, fuel: nat, i: int) -> Result<(), ValidationErrorV>
    decreases fuel, 1int, us.len() - i,
{
    if i < 0 || i >= us.len() {
        Ok(())
    } else {
        match check_uri(reg, us[i], v, fuel) {
            Err(e) => Err(e),
            Ok(()) => all_from(reg, us, v, fuel, i + 1),
        }
    }
}

/// Whether some schema among `i..` accepts `v`, stopping at the first
/// that does; an error that stops validation is passed on.
pub open spec fn any_from(reg: Registry, us: Seq<Seq<char>>, v: JsonV, fuel: nat, i: int) -> Result<bool, ValidationErrorV>
    decreases fuel, 1int, us.len() - i,
{
    if i < 0 || i >= us.len() {
        Ok(false)
    } else {
        match check_uri(reg, us[i], v, fuel) {
            Ok(()) => Ok(true),
            Err(e) => if branch_stops(reg, us[i], e) {
                Err(e)
            } else {
                any_from(reg, us, v, fuel, i + 1)
            },
        }
    }
}

/// How many schemas among `i..` accept `v`; an error that stops validation
/// is passed on.
pub open spec fn count_from(reg: Registry, us: Seq<Seq<char>>, v: JsonV, fuel: nat, i: int) -> Result<nat, ValidationErrorV>
    decreases fuel, 1int, us.len() - i,
{
    if i < 0 || i >= us.len() {
        Ok(0)
    } else {
        match check_uri(reg, us[i], v, fuel) {
            Ok(()) => match count_from(reg, us, v, fuel, i + 1) {
                Err(e) => Err(e),
                Ok(n) => Ok(n + 1),
            },
            Err(e) => if branch_stops(reg, us[i], e) {
                Err(e)
            } else {
                count_from(reg, us, v, fuel, i + 1)
            },
        }
    }
}

/// The schema that applies to element `i` of an array.
pub open spec fn item_schema(pos: Seq<Seq<char>>, trailing: Option<Seq<char>>, i: int) -> Option<Seq<char>> {
    if 0 <= i < pos.len() {
        Some(pos[i])
    } else {
        trailing
    }
}

/// Elements `i..` of an array against their schemas.
pub open spec fn items_from(
    reg: Registry,
    pos: Seq<Seq<char>>,
    trailing: Option<Seq<char>>,
    a: Seq<JsonV>,
    fuel: nat,
    i: int,
) -> Result<(), ValidationErrorV>
    decreases fuel, 1int, a.len() - i,
{
    if i < 0 || i >= a.len() {
        Ok(())
    } else {
        match item_schema(pos, trailing, i) {
            None => items_from(reg, pos, trailing, a, fuel, i + 1),
            Some(u) => match check_uri(reg, u, a[i], fuel) {
                Err(e) => Err(e),
                Ok(()) => items_from(reg, pos, trailing, a, fuel, i + 1),
            },
        }
    }
}

/// Whether some element among `i..` validates against the schema.
pub open spec fn elems_any(reg: Registry, u: Seq<char>, a: Seq<JsonV>, fuel: nat, i: int) -> Result<bool, ValidationErrorV>
    decreases fuel, 1int, a.len() - i,
{
    if i < 0 || i >= a.len() {
        Ok(false)
    } else {
        match check_uri(reg, u, a[i], fuel) {
            Ok(()) => Ok(true),
            Err(e) => if branch_stops(reg, u, e) {
                Err(e)
            } else {
                elems_any(reg, u, a, fuel, i + 1)
            },
        }
    }
}

/// The member value against every pattern schema among `j..` whose pattern
/// matches the key.
pub open spec fn pats_from(
    reg: Registry,
    pats: Seq<(Seq<char>, Seq<char>)>,
    k: Seq<char>,
    val: JsonV,
    fuel: nat,
    j: int,
) -> Result<(), ValidationErrorV>
    decreases fuel, 1int, pats.len() - j,
{
    if j < 0 || j >= pats.len() {
        Ok(())
    } else if regex_finds(pats[j].0, k) {
        match check_uri(reg, pats[j].1, val, fuel) {
            Err(e) => Err(e),
            Ok(()) => pats_from(reg, pats, k, val, fuel, j + 1),
        }
    } else {
        pats_from(reg, pats, k, val, fuel, j + 1)
    }
}

/// One member of an object under `Properties`: its named schema, then the
/// schemas of matching patterns, then, where neither applied, the
/// additional schema.
pub open spec fn member_check(
    reg: Registry,
    names: Seq<(Seq<char>, Seq<char>)>,
    pats: Seq<(Seq<char>, Seq<char>)>,
    additional: Option<Seq<char>>,
    k: Seq<char>,
    val: JsonV,
    fuel: nat,
) -> Result<(), ValidationErrorV>
    decreases fuel, 2int, 0int,
{
    let named = named_schema(names, k, 0);
    let first = match named {
        Some(u) => check_uri(reg, u, val, fuel),
        None => Ok(()),
    };
    match first {
        Err(e) => Err(e),
        Ok(()) => match pats_from(reg, pats, k, val, fuel, 0) {
            Err(e) => Err(e),
            Ok(()) => if named is None && !some_pattern_matches(pats, k) {
                match additional {
                    Some(u) => check_uri(reg, u, val, fuel),
                    None => Ok(()),
                }
            } else {
                Ok(())
            },
        },
    }
}

/// Members `i..` of an object under `Properties`.
pub open spec fn members_from(
    reg: Registry,
    names: Seq<(Seq<char>, Seq<char>)>,
    pats: Seq<(Seq<char>, Seq<char>)>,
    additional: Option<Seq<char>>,
    m: Seq<(Seq<char>, JsonV)>,
    fuel: nat,
    i: int,
) -> Result<(), ValidationErrorV>
    decreases fuel, 3int, m.len() - i,
{
    if i < 0 || i >= m.len() {
        Ok(())
    } else {
        match member_check(reg, names, pats, additional, m[i].0, m[i].1, fuel) {
            Err(e) => Err(e),
            Ok(()) => members_from(reg, names, pats, additional, m, fuel, i + 1),
        }
    }
}

/// Whether the dependencies `i..` are met by the object `v` (with members
/// `m`); errors of dependency schemas are passed on.
pub open spec fn deps_from(
    reg: Registry,
    ds: Seq<(Seq<char>, DependencyV)>,
    v: JsonV,
    m: Seq<(Seq<char>, JsonV)>,
    fuel: nat,
    i: int,
) -> Result<bool, ValidationErrorV>
    decreases fuel, 1int, ds.len() - i,
{
    if i < 0 || i >= ds.len() {
        Ok(true)
    } else if !has_key(m, ds[i].0) {
        deps_from(reg, ds, v, m, fuel, i + 1)
    } else {
        match ds[i].1 {
            DependencyV::Names(ns) => if all_present(m, ns) {
                deps_from(reg, ds, v, m, fuel, i + 1)
            } else {
                Ok(false)
            },
            DependencyV::Schema(u) => match check_uri(reg, u, v, fuel) {
                Err(e) => Err(e),
                Ok(()) => deps_from(reg, ds, v, m, fuel, i + 1),
            },
        }
    }
}

/// Keys `i..` of an object, as strings, against the schema.
pub open spec fn keys_from(reg: Registry, u: Seq<char>, m: Seq<(Seq<char>, JsonV)>, fuel: nat, i: int) -> Result<(), ValidationErrorV>
    decreases fuel, 1int, m.len() - i,
{
    if i < 0 || i >= m.len() {
        Ok(())
    } else {
        match check_uri(reg, u, JsonV::String(m[i].0), fuel) {
            Err(e) => Err(e),
            Ok(()) => keys_from(reg, u, m, fuel, i + 1),
        }
    }
}


/// Whether the object has a member with this key.
pub fn has_member(m: &Vec<(String, Json)>, k: &str) -> (r: bool)
    ensures
        r == has_key(crate::json::members_view(m@), k@),
{
    proof {
        lemma_members_view(m@);
    }
    let ghost mv = crate::json::members_view(m@);
    let mut i: usize = 0;
    while i < m.len()
        invariant
            i <= m.len(),
            mv == crate::json::members_view(m@),
            mv.len() == m@.len(),
            forall|x: int| 0 <= x < m@.len() ==> #[trigger] mv[x] == (m@[x].0@, crate::json::json_view(m@[x].1)),
            forall|x: int| 0 <= x < i ==> mv[x].0 != k@,
        decreases m.len() - i,
    {
        if str_equal(m[i].0.as_str(), k) {
            assert(mv[i as int].0 == k@);
            return true;
        }
        i = i + 1;
    }
    false
}

/// Whether a condition that consults no other schema holds of the value.
fn holds_exec(c: &Condition, v: &Json) -> (r: bool)
    requires
        !(c is AllOf || c is AnyOf || c is OneOf || c is Not || c is Items || c is Contains
            || c is Properties || c is Dependencies || c is PropertyNames),
    ensures
        r == holds(c@, v@),
{
    match (c, v) {
        (Condition::MultipleOf(m), Json::Number(n)) => multiple_of(*n, *m),
        (Condition::Maximum(m), Json::Number(n)) => compare(*n, *m, false),
        (Condition::ExclusiveMaximum(m), Json::Number(n)) => compare(*n, *m, true),
        (Condition::Minimum(m), Json::Number(n)) => compare(*m, *n, false),
        (Condition::ExclusiveMinimum(m), Json::Number(n)) => compare(*m, *n, true),
        (Condition::MaxLength(k), Json::String(s)) => (s.as_str().unicode_len() as u64) <= *k,
        (Condition::MinLength(k), Json::String(s)) => (s.as_str().unicode_len() as u64) >= *k,
        (Condition::Pattern(p), Json::String(s)) => p.is_match(s.as_str()),
        (Condition::MaxItems(k), Json::Array(a)) => {
            proof {
                lemma_elems_view(a@);
            }
            (a.len() as u64) <= *k
        },
        (Condition::MinItems(k), Json::Array(a)) => {
            proof {
                lemma_elems_view(a@);
            }
            (a.len() as u64) >= *k
        },
        (Condition::UniqueItems(u), Json::Array(a)) => {
            if !*u {
                return true;
            }
            proof {
                lemma_elems_view(a@);
            }
            let ghost av = crate::json::elems_view(a@);
            let mut i: usize = 0;
            while i < a.len()
                invariant
                    *v == Json::Array(*a),
                    *c == Condition::UniqueItems(*u),
                    *u,
                    i <= a.len(),
                    av == crate::json::elems_view(a@),
                    av.len() == a@.len(),
                    forall|x: int| 0 <= x < a@.len() ==> #[trigger] av[x] == crate::json::json_view(a@[x]),
                    forall|x: int, y: int| 0 <= x < i && x < y < av.len() ==> !json_eq(#[trigger] av[x], #[trigger] av[y]),
                decreases a.len() - i,
            {
                let mut j: usize = i + 1;
                while j < a.len()
                    invariant
                        *v == Json::Array(*a),
                        *c == Condition::UniqueItems(*u),
                        *u,
                        i < j <= a.len(),
                        i < a.len(),
                        av == crate::json::elems_view(a@),
                        av.len() == a@.len(),
                        forall|x: int| 0 <= x < a@.len() ==> #[trigger] av[x] == crate::json::json_view(a@[x]),
                        forall|x: int, y: int| 0 <= x < i && x < y < av.len() ==> !json_eq(#[trigger] av[x], #[trigger] av[y]),
                        forall|y: int| i < y < j ==> !json_eq(av[i as int], #[trigger] av[y]),
                    decreases a.len() - j,
                {
                    if a[i].equals(&a[j]) {
                        assert(json_eq(av[i as int], av[j as int]));
                        assert(v@ == JsonV::Array(av));
                        assert(c@ == CondV::UniqueItems(true));
                        assert(0 <= i < j < av.len());
                        assert(!all_distinct(av));
                        return false;
                    }
                    j = j + 1;
                }
                i = i + 1;
            }
            true
        },
        (Condition::MaxProperties(k), Json::Object(m)) => {
            proof {
                lemma_members_view(m@);
            }
            (m.len() as u64) <= *k
        },
        (Condition::MinProperties(k), Json::Object(m)) => {
            proof {
                lemma_members_view(m@);
            }
            (m.len() as u64) >= *k
        },
        (Condition::Required(ns), Json::Object(m)) => {
            let ghost nv = crate::condition::strs_view(ns@);
            let ghost mv = crate::json::members_view(m@);
            let mut i: usize = 0;
            while i < ns.len()
                invariant
                    *v == Json::Object(*m),
                    *c == Condition::Required(*ns),
                    i <= ns.len(),
                    nv == crate::condition::strs_view(ns@),
                    mv == crate::json::members_view(m@),
                    forall|x: int| 0 <= x < i ==> has_key(mv, #[trigger] nv[x]),
                decreases ns.len() - i,
            {
                if !has_member(m, ns[i].as_str()) {
                    assert(nv[i as int] == ns@[i as int]@);
                    assert(0 <= i < nv.len());
                    assert(c@ == CondV::Required(nv));
                    assert(!has_key(mv, nv[i as int]));
                    assert(!all_present(mv, nv));
                    return false;
                }
                i = i + 1;
            }
            true
        },
        (Condition::Enum(es), _) => {
            let ghost ev = crate::condition::jsons_view(es@);
            let mut i: usize = 0;
            while i < es.len()
                invariant
                    *c == Condition::Enum(*es),
                    i <= es.len(),
                    ev == crate::condition::jsons_view(es@),
                    forall|x: int| 0 <= x < i ==> !json_eq(#[trigger] ev[x], v@),
                decreases es.len() - i,
            {
                if es[i].equals(v) {
                    assert(json_eq(ev[i as int], v@));
                    assert(c@ == CondV::Enum(ev));
                    assert(0 <= i < ev.len());
                    assert(listed(ev, v@));
                    return true;
                }
                i = i + 1;
            }
            false
        },
        (Condition::Const(k), _) => v.equals(k),
        (Condition::Type(ts), _) => {
            let mut i: usize = 0;
            while i < ts.len()
                invariant
                    *c == Condition::Type(*ts),
                    i <= ts.len(),
                    forall|x: int| 0 <= x < i ==> !has_type(#[trigger] ts@[x], v@),
                decreases ts.len() - i,
            {
                if ts[i].type_of(v) {
                    assert(c@ == CondV::Type(ts@));
                    assert(has_type(ts@[i as int], v@));
                    assert(some_type(ts@, v@));
                    return true;
                }
                i = i + 1;
            }
            false
        },
        _ => true,
    }
}

/// Whether an error from the branch schema at `u` stops validation; see
/// [`branch_stops`].
fn stops(ctx: &Context, u: &str, e: &ValidationError) -> (r: bool)
    ensures
        r == branch_stops(ctx@, u@, e@),
{
    match e {
        ValidationError::DepthExceeded(_) => true,
        _ => ctx.node(u).is_none(),
    }
}

/// Validates `v` against the schema stored under `uri`, following at most
/// `fuel` schema links.
pub fn validate_uri(ctx: &Context, uri: &str, v: &Json, fuel: u64) -> (r: Result<(), ValidationError>)
    ensures
        outcome_view(r) == check_uri(ctx@, uri@, v@, fuel as nat),
    decreases fuel, 0int,
{
    if fuel == 0 {
        return Err(ValidationError::DepthExceeded(uri.to_owned()));
    }
    match ctx.node(uri) {
        None => Err(ValidationError::BadReference(uri.to_owned())),
        Some(node) => node.validator.validate_with(ctx, v, fuel - 1),
    }
}

impl Validator {
    /// Validates `v`, following at most `fuel` schema links.
    pub fn validate_with(&self, ctx: &Context, v: &Json, fuel: u64) -> (r: Result<(), ValidationError>)
        ensures
            outcome_view(r) == check_validator(ctx@, self@, v@, fuel as nat),
        decreases fuel, 6int,
    {
        match self {
            Validator::Anything => Ok(()),
            Validator::Nothing => Err(ValidationError::NoValuesPass(v.copy())),
            Validator::Reference(u) => validate_uri(ctx, u.as_str(), v, fuel),
            Validator::Conditions(cs) => validate_conds(ctx, cs, v, fuel),
        }
    }

    /// Validates `v` against this validator, resolving schema links in
    /// `ctx` up to [`MAX_DEPTH`] deep.
    pub fn validate(&self, ctx: &Context, v: &Json) -> (r: Result<(), ValidationError>)
        ensures
            outcome_view(r) == check_validator(ctx@, self@, v@, MAX_DEPTH as nat),
    {
        self.validate_with(ctx, v, MAX_DEPTH)
    }
}

/// The conditions in order; the first failure is returned.
fn validate_conds(ctx: &Context, cs: &Vec<Condition>, v: &Json, fuel: u64) -> (r: Result<(), ValidationError>)
    ensures
        outcome_view(r) == check_conds(ctx@, crate::context::conds_view(cs@), v@, fuel as nat, 0),
    decreases fuel, 5int,
{
    let ghost cv = crate::context::conds_view(cs@);
    let mut i: usize = 0;
    while i < cs.len()
        invariant
            i <= cs.len(),
            cv == crate::context::conds_view(cs@),
            check_conds(ctx@, cv, v@, fuel as nat, 0) == check_conds(ctx@, cv, v@, fuel as nat, i as int),
        decreases cs.len() - i,
    {
        let r = cs[i].validate_with(ctx, v, fuel);
        match r {
            Err(e) => {
                return Err(e);
            },
            Ok(()) => {},
        }
        i = i + 1;
    }
    Ok(())
}

impl Condition {
    /// Validates `v` against this condition, following at most `fuel`
    /// schema links.
    pub fn validate_with(&self, ctx: &Context, v: &Json, fuel: u64) -> (r: Result<(), ValidationError>)
        ensures
            outcome_view(r) == check_cond(ctx@, self@, v@, fuel as nat),
        decreases fuel, 4int,
    {
        let ghost reg = ctx@;
        let ghost f = fuel as nat;
        match self {
            Condition::AllOf(us) => {
                let ghost uv = crate::condition::strs_view(us@);
                assert(uv.len() == us@.len());
                let mut i: usize = 0;
                while i < us.len()
                    invariant
                        reg == ctx@,
                        f == fuel as nat,
                        *self == Condition::AllOf(*us),
                        i <= us.len(),
                        uv == crate::condition::strs_view(us@),
                        uv.len() == us@.len(),
                        all_from(reg, uv, v@, f, 0) == all_from(reg, uv, v@, f, i as int),
                    decreases us.len() - i,
                {
                    let r = validate_uri(ctx, us[i].as_str(), v, fuel);
                    proof {
                        assert(uv[i as int] == us@[i as int]@);
                    }
                    match r {
                        Err(e) => {
                            assert(outcome_view(Err(e)) == Err::<(), ValidationErrorV>(e@));
                            return Err(e);
                        },
                        Ok(()) => {
                            assert(check_uri(reg, uv[i as int], v@, f) == Ok::<(), ValidationErrorV>(()));
                        },
                    }
                    i = i + 1;
                }
                assert(self@ == CondV::AllOf(uv));
                Ok(())
            },
            Condition::AnyOf(us) => {
                let ghost uv = crate::condition::strs_view(us@);
                assert(uv.len() == us@.len());
                let mut i: usize = 0;
                while i < us.len()
                    invariant
                        reg == ctx@,
                        f == fuel as nat,
                        *self == Condition::AnyOf(*us),
                        i <= us.len(),
                        uv == crate::condition::strs_view(us@),
                        uv.len() == us@.len(),
                        any_from(reg, uv, v@, f, 0) == any_from(reg, uv, v@, f, i as int),
                    decreases us.len() - i,
                {
                    match validate_uri(ctx, us[i].as_str(), v, fuel) {
                        Err(e) => {
                            if stops(ctx, us[i].as_str(), &e) {
                                return Err(e);
                            }
                        },
                        Ok(()) => {
                            return Ok(());
                        },
                    }
                    i = i + 1;
                }
                Err(ValidationError::ConditionFailed(self.copy()))
            },
            Condition::OneOf(us) => {
                let ghost uv = crate::condition::strs_view(us@);
                let mut i: usize = 0;
                let mut n: u64 = 0;
                while i < us.len()
                    invariant
                        reg == ctx@,
                        f == fuel as nat,
                        *self == Condition::OneOf(*us),
                        i <= us.len(),
                        n <= i,
                        uv == crate::condition::strs_view(us@),
                        uv.len() == us@.len(),
                        count_from(reg, uv, v@, f, 0) == match count_from(reg, uv, v@, f, i as int) {
                            Err(e) => Err(e),
                            Ok(k) => Ok::<nat, ValidationErrorV>((k + n) as nat),
                        },
                    decreases us.len() - i,
                {
                    match validate_uri(ctx, us[i].as_str(), v, fuel) {
                        Err(e) => {
                            if stops(ctx, us[i].as_str(), &e) {
                                return Err(e);
                            }
                        },
                        Ok(()) => {
                            n = n + 1;
                        },
                    }
                    i = i + 1;
                }
                if n == 1 {
                    Ok(())
                } else {
                    Err(ValidationError::ConditionFailed(self.copy()))
                }
            },
            Condition::Not(u) => match validate_uri(ctx, u.as_str(), v, fuel) {
                Ok(()) => Err(ValidationError::ConditionFailed(self.copy())),
                Err(e) => if stops(ctx, u.as_str(), &e) {
                    Err(e)
                } else {
                    Ok(())
                },
            },
            Condition::Items(pos, trailing) => match v {
                Json::Array(a) => {
                    proof {
                        lemma_elems_view(a@);
                    }
                    let ghost pv = crate::condition::strs_view(pos@);
                    let ghost tv = crate::condition::opt_str_view(*trailing);
                    let ghost av = crate::json::elems_view(a@);
                    let mut i: usize = 0;
                    while i < a.len()
                        invariant
                            reg == ctx@,
                            f == fuel as nat,
                            *self == Condition::Items(*pos, *trailing),
                            *v == Json::Array(*a),
                            i <= a.len(),
                            pv == crate::condition::strs_view(pos@),
                            tv == crate::condition::opt_str_view(*trailing),
                            av == crate::json::elems_view(a@),
                            av.len() == a@.len(),
                            forall|x: int| 0 <= x < a@.len() ==> #[trigger] av[x] == crate::json::json_view(a@[x]),
                            items_from(reg, pv, tv, av, f, 0) == items_from(reg, pv, tv, av, f, i as int),
                        decreases a.len() - i,
                    {
                        let schema: Option<&String> = if i < pos.len() {
                            Some(&pos[i])
                        } else {
                            match trailing {
                                Some(t) => Some(t),
                                None => None,
                            }
                        };
                        match schema {
                            Some(u) => match validate_uri(ctx, u.as_str(), &a[i], fuel) {
                                Err(e) => {
                                    return Err(e);
                                },
                                Ok(()) => {},
                            },
                            None => {},
                        }
                        i = i + 1;
                    }
                    Ok(())
                },
                _ => Ok(()),
            },
            Condition::Contains(u) => match v {
                Json::Array(a) => {
                    proof {
                        lemma_elems_view(a@);
                    }
                    let ghost av = crate::json::elems_view(a@);
                    let mut i: usize = 0;
                    while i < a.len()
                        invariant
                            reg == ctx@,
                            f == fuel as nat,
                            *self == Condition::Contains(*u),
                            *v == Json::Array(*a),
                            i <= a.len(),
                            av == crate::json::elems_view(a@),
                            av.len() == a@.len(),
                            forall|x: int| 0 <= x < a@.len() ==> #[trigger] av[x] == crate::json::json_view(a@[x]),
                            elems_any(reg, u@, av, f, 0) == elems_any(reg, u@, av, f, i as int),
                        decreases a.len() - i,
                    {
                        match validate_uri(ctx, u.as_str(), &a[i], fuel) {
                            Err(e) => {
                                if stops(ctx, u.as_str(), &e) {
                                    return Err(e);
                                }
                            },
                            Ok(()) => {
                                return Ok(());
                            },
                        }
                        i = i + 1;
                    }
                    Err(ValidationError::ConditionFailed(self.copy()))
                },
                _ => Ok(()),
            },
            Condition::Properties(names, pats, additional) => match v {
                Json::Object(m) => validate_members(ctx, names, pats, additional, m, fuel),
                _ => Ok(()),
            },
            Condition::Dependencies(ds) => match v {
                Json::Object(m) => {
                    let ghost dv = crate::condition::deps_view(ds@);
                    let ghost mv = crate::json::members_view(m@);
                    let mut i: usize = 0;
                    while i < ds.len()
                        invariant
                            reg == ctx@,
                            f == fuel as nat,
                            *self == Condition::Dependencies(*ds),
                            *v == Json::Object(*m),
                            i <= ds.len(),
                            dv == crate::condition::deps_view(ds@),
                            mv == crate::json::members_view(m@),
                            deps_from(reg, dv, v@, mv, f, 0) == deps_from(reg, dv, v@, mv, f, i as int),
                        decreases ds.len() - i,
                    {
                        if has_member(m, ds[i].0.as_str()) {
                            match &ds[i].1 {
                                Dependency::Names(ns) => {
                                    if !all_members(m, ns) {
                                        return Err(ValidationError::ConditionFailed(self.copy()));
                                    }
                                },
                                Dependency::Schema(u) => match validate_uri(ctx, u.as_str(), v, fuel) {
                                    Err(e) => {
                                        return Err(e);
                                    },
                                    Ok(()) => {},
                                },
                            }
                        }
                        i = i + 1;
                    }
                    Ok(())
                },
                _ => Ok(()),
            },
            Condition::PropertyNames(u) => match v {
                Json::Object(m) => {
                    proof {
                        lemma_members_view(m@);
                    }
                    let ghost mv = crate::json::members_view(m@);
                    let mut i: usize = 0;
                    while i < m.len()
                        invariant
                            reg == ctx@,
                            f == fuel as nat,
                            *self == Condition::PropertyNames(*u),
                            *v == Json::Object(*m),
                            i <= m.len(),
                            mv == crate::json::members_view(m@),
                            mv.len() == m@.len(),
                            forall|x: int| 0 <= x < m@.len() ==> #[trigger] mv[x] == (m@[x].0@, crate::json::json_view(m@[x].1)),
                            keys_from(reg, u@, mv, f, 0) == keys_from(reg, u@, mv, f, i as int),
                        decreases m.len() - i,
                    {
                        let key = Json::String(m[i].0.clone());
                        match validate_uri(ctx, u.as_str(), &key, fuel) {
                            Err(e) => {
                                return Err(e);
                            },
                            Ok(()) => {},
                        }
                        i = i + 1;
                    }
                    Ok(())
                },
                _ => Ok(()),
            },
            _ => {
                if holds_exec(self, v) {
                    Ok(())
                } else {
                    Err(ValidationError::ConditionFailed(self.copy()))
                }
            },
        }
    }

    /// Validates `v` against this condition, resolving schema links in
    /// `ctx` up to [`MAX_DEPTH`] deep.
    pub fn validate(&self, ctx: &Context, v: &Json) -> (r: Result<(), ValidationError>)
        ensures
            outcome_view(r) == check_cond(ctx@, self@, v@, MAX_DEPTH as nat),
    {
        self.validate_with(ctx, v, MAX_DEPTH)
    }
}

/// Whether the object has a member for every name.
fn all_members(m: &Vec<(String, Json)>, ns: &Vec<String>) -> (r: bool)
    ensures
        r == all_present(crate::json::members_view(m@), crate::condition::strs_view(ns@)),
{
    let ghost nv = crate::condition::strs_view(ns@);
    let ghost mv = crate::json::members_view(m@);
    let mut i: usize = 0;
    while i < ns.len()
        invariant
            i <= ns.len(),
            nv == crate::condition::strs_view(ns@),
            mv == crate::json::members_view(m@),
            forall|x: int| 0 <= x < i ==> has_key(mv, #[trigger] nv[x]),
        decreases ns.len() - i,
    {
        if !has_member(m, ns[i].as_str()) {
            assert(nv[i as int] == ns@[i as int]@);
            assert(!has_key(mv, nv[i as int]));
            return false;
        }
        i = i + 1;
    }
    true
}

/// The members of an object under `Properties`.
fn validate_members(
    ctx: &Context,
    names: &Vec<(String, String)>,
    pats: &Vec<(crate::pattern::RegexWrapper, String)>,
    additional: &Option<String>,
    m: &Vec<(String, Json)>,
    fuel: u64,
) -> (r: Result<(), ValidationError>)
    ensures
        outcome_view(r) == members_from(
            ctx@,
            crate::condition::pairs_view(names@),
            crate::condition::patterns_view(pats@),
            crate::condition::opt_str_view(*additional),
            crate::json::members_view(m@),
            fuel as nat,
            0,
        ),
    decreases fuel, 3int,
{
    proof {
        lemma_members_view(m@);
    }
    let ghost nv = crate::condition::pairs_view(names@);
    let ghost pv = crate::condition::patterns_view(pats@);
    let ghost av = crate::condition::opt_str_view(*additional);
    let ghost mv = crate::json::members_view(m@);
    let mut i: usize = 0;
    while i < m.len()
        invariant
            i <= m.len(),
            nv == crate::condition::pairs_view(names@),
            pv == crate::condition::patterns_view(pats@),
            av == crate::condition::opt_str_view(*additional),
            mv == crate::json::members_view(m@),
            mv.len() == m@.len(),
            forall|x: int| 0 <= x < m@.len() ==> #[trigger] mv[x] == (m@[x].0@, crate::json::json_view(m@[x].1)),
            members_from(ctx@, nv, pv, av, mv, fuel as nat, 0) == members_from(ctx@, nv, pv, av, mv, fuel as nat, i as int),
        decreases m.len() - i,
    {
        match validate_member(ctx, names, pats, additional, m[i].0.as_str(), &m[i].1, fuel) {
            Err(e) => {
                return Err(e);
            },
            Ok(()) => {},
        }
        i = i + 1;
    }
    Ok(())
}

/// The index of the first entry named `k`, if any.
fn find_named(names: &Vec<(String, String)>, k: &str) -> (r: Option<usize>)
    ensures
        match r {
            Some(x) => x < names@.len() && named_schema(crate::condition::pairs_view(names@), k@, 0)
                == Some(names@[x as int].1@),
            None => named_schema(crate::condition::pairs_view(names@), k@, 0) is None,
        },
{
    let ghost nv = crate::condition::pairs_view(names@);
    let mut j: usize = 0;
    while j < names.len()
        invariant
            j <= names.len(),
            nv == crate::condition::pairs_view(names@),
            nv.len() == names@.len(),
            named_schema(nv, k@, 0) == named_schema(nv, k@, j as int),
        decreases names.len() - j,
    {
        if str_equal(names[j].0.as_str(), k) {
            assert(nv[j as int].0 == k@);
            return Some(j);
        }
        j = j + 1;
    }
    None
}

/// One member of an object under `Properties`.
fn validate_member(
    ctx: &Context,
    names: &Vec<(String, String)>,
    pats: &Vec<(crate::pattern::RegexWrapper, String)>,
    additional: &Option<String>,
    k: &str,
    val: &Json,
    fuel: u64,
) -> (r: Result<(), ValidationError>)
    ensures
        outcome_view(r) == member_check(
            ctx@,
            crate::condition::pairs_view(names@),
            crate::condition::patterns_view(pats@),
            crate::condition::opt_str_view(*additional),
            k@,
            val@,
            fuel as nat,
        ),
    decreases fuel, 2int,
{
    let ghost nv = crate::condition::pairs_view(names@);
    let ghost pv = crate::condition::patterns_view(pats@);
    let ghost f = fuel as nat;
    let named = find_named(names, k);
    match named {
        Some(x) => {
            match validate_uri(ctx, names[x].1.as_str(), val, fuel) {
                Err(e) => {
                    return Err(e);
                },
                Ok(()) => {},
            }
        },
        None => {},
    }
    assert(pv.len() == pats@.len());
    let mut p: usize = 0;
    let mut matched = false;
    while p < pats.len()
        invariant
            p <= pats.len(),
            pv == crate::condition::patterns_view(pats@),
            pv.len() == pats@.len(),
            f == fuel as nat,
            named is Some <==> named_schema(crate::condition::pairs_view(names@), k@, 0) is Some,
            match named_schema(crate::condition::pairs_view(names@), k@, 0) {
                Some(u) => check_uri(ctx@, u, val@, f) == Ok::<(), ValidationErrorV>(()),
                None => true,
            },
            matched == exists|x: int| 0 <= x < p && regex_finds(#[trigger] pv[x].0, k@),
            pats_from(ctx@, pv, k@, val@, f, 0) == pats_from(ctx@, pv, k@, val@, f, p as int),
        decreases pats.len() - p,
    {
        if pats[p].0.is_match(k) {
            assert(regex_finds(pv[p as int].0, k@));
            matched = true;
            match validate_uri(ctx, pats[p].1.as_str(), val, fuel) {
                Err(e) => {
                    return Err(e);
                },
                Ok(()) => {},
            }
        }
        p = p + 1;
    }
    if named.is_none() && !matched {
        match additional {
            Some(u) => validate_uri(ctx, u.as_str(), val, fuel),
            None => Ok(()),
        }
    } else {
        Ok(())
    }
}

impl<'a> JsonSchema<'a> {
    /// Validates a JSON value against this schema, resolving schema links
    /// up to [`MAX_DEPTH`] deep.
    pub fn validate(&self, json: &Json) -> (r: Result<(), ValidationError>)
        ensures
            outcome_view(r) == check_uri(self.ctx@, self.id@, json@, MAX_DEPTH as nat),
    {
        validate_uri(self.ctx, self.id.as_str(), json, MAX_DEPTH)
    }
}

} // verus!
