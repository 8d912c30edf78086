use vstd::prelude::*;

use crate::condition::{opt_str_view, priority, strs_view, type_named, CondV, Condition, Type};
use crate::condition::{deps_view, pairs_view, patterns_view, Dependency, DependencyV};
use crate::pattern::RegexWrapper;
use crate::context::{conds_view, put_all, stored_view, Context, JsonSchema, NodeV, SchemaNode, Validator, ValidatorV};
use crate::errors::{FromValueError, FromValueErrorV};
use crate::json::{elems_view, lemma_elems_view, lemma_members_view, members_view, str_equal, Json, JsonV};
use crate::uri::{push_uri, pushed_uri, url_joined, url_parsed};
use crate::pattern::regex_compiles;

verus! {

/// Compiled schemas, each with its URI, in the order they are stored.
pub type Entries = Seq<(Seq<char>, NodeV)>;

/// The index of the first member with key `k` among members `i..`.
pub open spec fn find_key(m: Seq<(Seq<char>, JsonV)>, k: Seq<char>, i: int) -> Option<int>
    decreases m.len() - i,
{
    if i < 0 || i >= m.len() {
        None
    } else if m[i].0 == k {
        Some(i)
    } else {
        find_key(m, k, i + 1)
    }
}

/// A key found is found at or after the start, with that key.
pub proof fn lemma_find_key(m: Seq<(Seq<char>, JsonV)>, k: Seq<char>, i: int)
    ensures
        find_key(m, k, i) matches Some(x) ==> i <= x < m.len() && m[x].0 == k,
    decreases m.len() - i,
{
    if 0 <= i < m.len() && m[i].0 != k {
        lemma_find_key(m, k, i + 1);
    }
}

/// The index of the first member with key `k`.
pub fn find_member(m: &Vec<(String, Json)>, k: &str) -> (r: Option<usize>)
    ensures
        match r {
            Some(x) => find_key(members_view(m@), k@, 0) == Some(x as int) && x < m@.len(),
            None => find_key(members_view(m@), k@, 0) is None,
        },
{
    proof {
        lemma_members_view(m@);
    }
    let ghost mv = members_view(m@);
    let mut i: usize = 0;
    while i < m.len()
        invariant
            i <= m.len(),
            mv == members_view(m@),
            mv.len() == m@.len(),
            forall|x: int| 0 <= x < m@.len() ==> #[trigger] mv[x] == (m@[x].0@, crate::json::json_view(m@[x].1)),
            find_key(mv, k@, 0) == find_key(mv, k@, i as int),
        decreases m.len() - i,
    {
        if str_equal(m[i].0.as_str(), k) {
            return Some(i);
        }
        i = i + 1;
    }
    None
}

/// The decimal digit `d`.
pub open spec fn digit(d: nat) -> char {
    if d == 0 {
        '0'
    } else if d == 1 {
        '1'
    } else if d == 2 {
        '2'
    } else if d == 3 {
        '3'
    } else if d == 4 {
        '4'
    } else if d == 5 {
        '5'
    } else if d == 6 {
        '6'
    } else if d == 7 {
        '7'
    } else if d == 8 {
        '8'
    } else {
        '9'
    }
}

/// `n` written in decimal.
pub open spec fn decimal(n: nat) -> Seq<char>
    decreases n,
{
    if n < 10 {
        seq![digit(n)]
    } else {
        decimal(n / 10).push(digit(n % 10))
    }
}

/// The digit `d` as text.
fn digit_str(d: usize) -> (r: &'static str)
    requires
        d < 10,
    ensures
        r@ == seq![digit(d as nat)],
{
    proof {
        reveal_strlit("0");
        reveal_strlit("1");
        reveal_strlit("2");
        reveal_strlit("3");
        reveal_strlit("4");
        reveal_strlit("5");
        reveal_strlit("6");
        reveal_strlit("7");
        reveal_strlit("8");
        reveal_strlit("9");
    }
    if d == 0 {
        "0"
    } else if d == 1 {
        "1"
    } else if d == 2 {
        "2"
    } else if d == 3 {
        "3"
    } else if d == 4 {
        "4"
    } else if d == 5 {
        "5"
    } else if d == 6 {
        "6"
    } else if d == 7 {
        "7"
    } else if d == 8 {
        "8"
    } else {
        "9"
    }
}

/// `n` written in decimal.
pub fn decimal_string(n: usize) -> (r: String)
    ensures
        r@ == decimal(n as nat),
    decreases n,
{
    if n < 10 {
        String::from_str(digit_str(n))
    } else {
        let mut s = decimal_string(n / 10);
        s.append(digit_str(n % 10));
        s
    }
}

/// The URI one token below `uri`; a URI that does not parse is refused as
/// an invalid id.
pub open spec fn push_or_err(uri: Seq<char>, token: Seq<char>) -> Result<Seq<char>, FromValueErrorV> {
    match pushed_uri(uri, token) {
        Some(u) => Ok(u),
        None => Err(FromValueErrorV::InvalidId(uri)),
    }
}

/// The URI one token below `uri`; see [`push_or_err`].
fn push_checked(uri: &str, token: &str) -> (r: Result<String, crate::errors::FromValueError>)
    ensures
        match r {
            Ok(u) => push_or_err(uri@, token@) == Ok::<Seq<char>, FromValueErrorV>(u@),
            Err(e) => push_or_err(uri@, token@) == Err::<Seq<char>, FromValueErrorV>(e@),
        },
{
    match push_uri(uri, token) {
        Some(u) => Ok(u),
        None => Err(crate::errors::FromValueError::InvalidId(uri.to_owned())),
    }
}

/// The conditions of priority `p`, in their order.
pub open spec fn with_priority(cs: Seq<CondV>, p: nat) -> Seq<CondV>
    decreases cs.len(),
{
    if cs.len() == 0 {
        Seq::empty()
    } else if priority(cs.last()) == p {
        with_priority(cs.drop_last(), p).push(cs.last())
    } else {
        with_priority(cs.drop_last(), p)
    }
}

/// The conditions stably sorted by ascending priority: those of priority
/// 0, then 10, 20, 100 and 1000, each group in its original order.
pub open spec fn by_priority(cs: Seq<CondV>) -> Seq<CondV> {
    with_priority(cs, 0) + with_priority(cs, 10) + with_priority(cs, 20) + with_priority(cs, 100)
        + with_priority(cs, 1000)
}

/// Copies the conditions of priority `p` to the end of `out`.
fn take_priority(cs: &Vec<Condition>, p: usize, out: &mut Vec<Condition>)
    ensures
        conds_view(final(out)@) == conds_view(old(out)@) + with_priority(conds_view(cs@), p as nat),
{
    let ghost cv = conds_view(cs@);
    let mut i: usize = 0;
    while i < cs.len()
        invariant
            i <= cs.len(),
            cv == conds_view(cs@),
            conds_view(out@) == conds_view(old(out)@) + with_priority(cv.subrange(0, i as int), p as nat),
        decreases cs.len() - i,
    {
        proof {
            let t = cv.subrange(0, i as int + 1);
            assert(t.drop_last() =~= cv.subrange(0, i as int));
            assert(t.last() == cs@[i as int]@);
        }
        if cs[i].priority() == p {
            let c = cs[i].copy();
            let ghost before = out@;
            out.push(c);
            proof {
                let t = cv.subrange(0, i as int + 1);
                assert(with_priority(t, p as nat) == with_priority(t.drop_last(), p as nat).push(t.last()));
                assert(conds_view(out@) =~= conds_view(before).push(cs@[i as int]@));
                assert(conds_view(out@) =~= conds_view(old(out)@) + with_priority(t, p as nat));
            }
        }
        i = i + 1;
    }
    assert(cv.subrange(0, cs.len() as int) =~= cv);
}

/// The conditions stably sorted by ascending priority.
pub fn sort_by_priority(cs: &Vec<Condition>) -> (r: Vec<Condition>)
    ensures
        conds_view(r@) == by_priority(conds_view(cs@)),
{
    let mut out: Vec<Condition> = Vec::new();
    assert(conds_view(out@) =~= Seq::<CondV>::empty());
    take_priority(cs, 0, &mut out);
    take_priority(cs, 10, &mut out);
    take_priority(cs, 20, &mut out);
    take_priority(cs, 100, &mut out);
    take_priority(cs, 1000, &mut out);
    assert(conds_view(out@) =~= by_priority(conds_view(cs@)));
    out
}

/// The one `$schema` value accepted: draft-06.
pub open spec fn dialect() -> Seq<char> {
    "http://json-schema.org/draft-06/schema#"@
}

/// The optional item as a sequence of zero or one items.
pub open spec fn opt_seq<T>(o: Option<T>) -> Seq<T> {
    match o {
        Some(x) => seq![x],
        None => Seq::empty(),
    }
}

/// The strings of an array, or `None` where an element is not a string.
pub open spec fn strings_of(a: Seq<JsonV>) -> Option<Seq<Seq<char>>>
    decreases a.len(),
{
    if a.len() == 0 {
        Some(Seq::empty())
    } else {
        match (strings_of(a.drop_last()), a.last()) {
            (Some(ss), JsonV::String(s)) => Some(ss.push(s)),
            _ => None,
        }
    }
}

/// The types that an array of names names, or `None` where an element is
/// not the name of a type.
pub open spec fn types_of(a: Seq<JsonV>) -> Option<Seq<Type>>
    decreases a.len(),
{
    if a.len() == 0 {
        Some(Seq::empty())
    } else {
        match (types_of(a.drop_last()), a.last()) {
            (Some(ts), JsonV::String(s)) => match type_named(s) {
                Some(t) => Some(ts.push(t)),
                None => None,
            },
            _ => None,
        }
    }
}

/// The `$schema` keyword: only at the root, and only naming draft-06.
pub open spec fn check_dialect(m: Seq<(Seq<char>, JsonV)>, root: bool) -> Result<(), FromValueErrorV> {
    match find_key(m, "$schema"@, 0) {
        None => Ok(()),
        Some(ix) => if !root {
            Err(FromValueErrorV::SubschemaUsesSchemaKeyword)
        } else {
            match m[ix].1 {
                JsonV::String(s) => if s == dialect() {
                    Ok(())
                } else {
                    Err(FromValueErrorV::UnknownSchemaVersion(s))
                },
                _ => Err(FromValueErrorV::InvalidKeywordType("$schema"@, m[ix].1)),
            }
        },
    }
}

/// The URI of an object schema: its `$id` where it has one, else the URI
/// of its position.
pub open spec fn schema_id(m: Seq<(Seq<char>, JsonV)>, uri: Seq<char>) -> Result<Seq<char>, FromValueErrorV> {
    match find_key(m, "$id"@, 0) {
        None => Ok(uri),
        Some(ix) => match m[ix].1 {
            JsonV::String(s) => match url_parsed(s) {
                Some(u) => Ok(u),
                None => Err(FromValueErrorV::InvalidId(s)),
            },
            _ => Err(FromValueErrorV::InvalidKeywordType("$id"@, m[ix].1)),
        },
    }
}

/// An optional keyword whose value must be a string.
pub open spec fn string_keyword(m: Seq<(Seq<char>, JsonV)>, k: Seq<char>) -> Result<Option<Seq<char>>, FromValueErrorV> {
    match find_key(m, k, 0) {
        None => Ok(None),
        Some(ix) => match m[ix].1 {
            JsonV::String(s) => Ok(Some(s)),
            _ => Err(FromValueErrorV::InvalidKeywordType(k, m[ix].1)),
        },
    }
}

/// The outcome of compiling the schema `j` at position `uri`: the URI it
/// is stored under, and every compiled schema with its URI, children
/// before parents.
pub open spec fn compile_schema(uri: Seq<char>, j: JsonV, root: bool) -> Result<(Seq<char>, Entries), FromValueErrorV>
    decreases j, 0int, 0int,
{
    match j {
        JsonV::Bool(b) => Ok(
            (
                uri,
                seq![
                    (
                        uri,
                        NodeV {
                            description: None,
                            title: None,
                            validator: if b {
                                ValidatorV::Anything
                            } else {
                                ValidatorV::Nothing
                            },
                        },
                    ),
                ],
            ),
        ),
        JsonV::Object(m) => compile_object(uri, m, root),
        _ => Err(FromValueErrorV::InvalidSchemaType(j)),
    }
}

/// The outcome of compiling an object schema with members `m`.
pub open spec fn compile_object(uri: Seq<char>, m: Seq<(Seq<char>, JsonV)>, root: bool) -> Result<(Seq<char>, Entries), FromValueErrorV>
    decreases m, 8int, 0int,
{
    match check_dialect(m, root) {
        Err(e) => Err(e),
        Ok(()) => match schema_id(m, uri) {
            Err(e) => Err(e),
            Ok(id) => match string_keyword(m, "title"@) {
                Err(e) => Err(e),
                Ok(title) => match string_keyword(m, "description"@) {
                    Err(e) => Err(e),
                    Ok(description) => match definitions(id, m) {
                        Err(e) => Err(e),
                        Ok(defs) => match find_key(m, "$ref"@, 0) {
                            Some(ix) => match m[ix].1 {
                                JsonV::String(r) => match url_joined(id, r) {
                                    Some(t) => Ok(
                                        (
                                            id,
                                            defs.push(
                                                (
                                                    id,
                                                    NodeV {
                                                        description,
                                                        title,
                                                        validator: ValidatorV::Reference(t),
                                                    },
                                                ),
                                            ),
                                        ),
                                    ),
                                    None => Err(FromValueErrorV::InvalidKeywordValue("$ref"@, m[ix].1)),
                                },
                                _ => Err(FromValueErrorV::InvalidKeywordType("$ref"@, m[ix].1)),
                            },
                            None => match items_keyword(id, m) {
                                Err(e) => Err(e),
                                Ok((ic, ie)) => match properties_keyword(id, m) {
                                    Err(e) => Err(e),
                                    Ok((pc, pe)) => match compile_members(id, m, 0) {
                                        Err(e) => Err(e),
                                        Ok((rc, re)) => Ok(
                                            (
                                                id,
                                                (defs + ie + pe + re).push(
                                                    (
                                                        id,
                                                        NodeV {
                                                            description,
                                                            title,
                                                            validator: ValidatorV::Conditions(
                                                                by_priority(opt_seq(ic) + opt_seq(pc) + rc),
                                                            ),
                                                        },
                                                    ),
                                                ),
                                            ),
                                        ),
                                    },
                                },
                            },
                        },
                    },
                },
            },
        },
    }
}

/// The schemas under `definitions`, compiled so that references can reach
/// them; they constrain nothing themselves.
pub open spec fn definitions(id: Seq<char>, m: Seq<(Seq<char>, JsonV)>) -> Result<Entries, FromValueErrorV>
    decreases m, 6int, 0int,
{
    match find_key(m, "definitions"@, 0) {
        None => Ok(Seq::empty()),
        Some(ix) => {
            proof {
                lemma_find_key(m, "definitions"@, 0);
            }
            match m[ix].1 {
                JsonV::Object(dm) => match push_or_err(id, "definitions"@) {
                    Err(e) => Err(e),
                    Ok(base) => match compile_named(base, dm, 0) {
                        Err(e) => Err(e),
                        Ok((_, es)) => Ok(es),
                    },
                },
                _ => Err(FromValueErrorV::InvalidKeywordType("definitions"@, m[ix].1)),
            }
        },
    }
}

/// The `items` and `additionalItems` keywords, as one condition.
pub open spec fn items_keyword(id: Seq<char>, m: Seq<(Seq<char>, JsonV)>) -> Result<(Option<CondV>, Entries), FromValueErrorV>
    decreases m, 6int, 0int,
{
    match find_key(m, "items"@, 0) {
        None => Ok((None, Seq::empty())),
        Some(ix) => {
            proof {
                lemma_find_key(m, "items"@, 0);
                lemma_find_key(m, "additionalItems"@, 0);
            }
            match push_or_err(id, "items"@) {
                Err(e) => Err(e),
                Ok(base) => match m[ix].1 {
                    JsonV::Array(a) => match compile_list(base, a, 0) {
                        Err(e) => Err(e),
                        Ok((pos, es1)) => match find_key(m, "additionalItems"@, 0) {
                            None => Ok((Some(CondV::Items(pos, None)), es1)),
                            Some(iy) => match push_or_err(id, "additionalItems"@) {
                                Err(e) => Err(e),
                                Ok(au) => match compile_schema(au, m[iy].1, false) {
                                    Err(e) => Err(e),
                                    Ok((ar, es2)) => Ok((Some(CondV::Items(pos, Some(ar))), es1 + es2)),
                                },
                            },
                        },
                    },
                    _ => match compile_schema(base, m[ix].1, false) {
                        Err(e) => Err(e),
                        Ok((r, es)) => Ok((Some(CondV::Items(Seq::empty(), Some(r))), es)),
                    },
                },
            }
        },
    }
}

/// The `properties` keyword: a schema for each named property.
pub open spec fn named_part(id: Seq<char>, m: Seq<(Seq<char>, JsonV)>) -> Result<(Option<Seq<(Seq<char>, Seq<char>)>>, Entries), FromValueErrorV>
    decreases m, 5int, 0int,
{
    match find_key(m, "properties"@, 0) {
        None => Ok((None, Seq::empty())),
        Some(ix) => {
            proof {
                lemma_find_key(m, "properties"@, 0);
            }
            match m[ix].1 {
                JsonV::Object(pm) => match push_or_err(id, "properties"@) {
                    Err(e) => Err(e),
                    Ok(base) => match compile_named(base, pm, 0) {
                        Err(e) => Err(e),
                        Ok((ns, es)) => Ok((Some(ns), es)),
                    },
                },
                _ => Err(FromValueErrorV::InvalidKeywordType("properties"@, m[ix].1)),
            }
        },
    }
}

/// The `patternProperties` keyword: a schema for each pattern.
pub open spec fn pattern_part(id: Seq<char>, m: Seq<(Seq<char>, JsonV)>) -> Result<(Option<Seq<(Seq<char>, Seq<char>)>>, Entries), FromValueErrorV>
    decreases m, 5int, 0int,
{
    match find_key(m, "patternProperties"@, 0) {
        None => Ok((None, Seq::empty())),
        Some(ix) => {
            proof {
                lemma_find_key(m, "patternProperties"@, 0);
            }
            match m[ix].1 {
                JsonV::Object(pm) => match push_or_err(id, "patternProperties"@) {
                    Err(e) => Err(e),
                    Ok(base) => match compile_patterns(base, pm, 0) {
                        Err(e) => Err(e),
                        Ok((ps, es)) => Ok((Some(ps), es)),
                    },
                },
                _ => Err(FromValueErrorV::InvalidKeywordType("patternProperties"@, m[ix].1)),
            }
        },
    }
}

/// The `additionalProperties` keyword: the schema for other properties.
pub open spec fn extra_part(id: Seq<char>, m: Seq<(Seq<char>, JsonV)>) -> Result<(Option<Seq<char>>, Entries), FromValueErrorV>
    decreases m, 5int, 0int,
{
    match find_key(m, "additionalProperties"@, 0) {
        None => Ok((None, Seq::empty())),
        Some(ix) => {
            proof {
                lemma_find_key(m, "additionalProperties"@, 0);
            }
            match push_or_err(id, "additionalProperties"@) {
                Err(e) => Err(e),
                Ok(au) => match compile_schema(au, m[ix].1, false) {
                    Err(e) => Err(e),
                    Ok((r, es)) => Ok((Some(r), es)),
                },
            }
        },
    }
}

/// The sequence held, or the empty sequence.
pub open spec fn or_empty<T>(o: Option<Seq<T>>) -> Seq<T> {
    match o {
        Some(x) => x,
        None => Seq::empty(),
    }
}

/// The `properties`, `patternProperties` and `additionalProperties`
/// keywords, as one condition where any of them is present.
pub open spec fn properties_keyword(id: Seq<char>, m: Seq<(Seq<char>, JsonV)>) -> Result<(Option<CondV>, Entries), FromValueErrorV>
    decreases m, 6int, 0int,
{
    match named_part(id, m) {
        Err(e) => Err(e),
        Ok((ns, es1)) => match pattern_part(id, m) {
            Err(e) => Err(e),
            Ok((ps, es2)) => match extra_part(id, m) {
                Err(e) => Err(e),
                Ok((add, es3)) => if ns is None && ps is None && add is None {
                    Ok((None, Seq::empty()))
                } else {
                    Ok((Some(CondV::Properties(or_empty(ns), or_empty(ps), add)), es1 + es2 + es3))
                },
            },
        },
    }
}

/// The schemas of an array, element `i` at position `base/i`.
pub open spec fn compile_list(base: Seq<char>, a: Seq<JsonV>, i: int) -> Result<(Seq<Seq<char>>, Entries), FromValueErrorV>
    decreases a, 5int, a.len() - i,
{
    if i < 0 || i >= a.len() {
        Ok((Seq::empty(), Seq::empty()))
    } else {
        match push_or_err(base, decimal(i as nat)) {
            Err(e) => Err(e),
            Ok(cu) => match compile_schema(cu, a[i], false) {
                Err(e) => Err(e),
                Ok((r, es)) => match compile_list(base, a, i + 1) {
                    Err(e) => Err(e),
                    Ok((us, rest)) => Ok((seq![r] + us, es + rest)),
                },
            },
        }
    }
}

/// The schemas of an object's members, each at position `base/key`.
pub open spec fn compile_named(base: Seq<char>, dm: Seq<(Seq<char>, JsonV)>, i: int) -> Result<(Seq<(Seq<char>, Seq<char>)>, Entries), FromValueErrorV>
    decreases dm, 5int, dm.len() - i,
{
    if i < 0 || i >= dm.len() {
        Ok((Seq::empty(), Seq::empty()))
    } else {
        match push_or_err(base, dm[i].0) {
            Err(e) => Err(e),
            Ok(cu) => match compile_schema(cu, dm[i].1, false) {
                Err(e) => Err(e),
                Ok((r, es)) => match compile_named(base, dm, i + 1) {
                    Err(e) => Err(e),
                    Ok((ns, rest)) => Ok((seq![(dm[i].0, r)] + ns, es + rest)),
                },
            },
        }
    }
}

/// The schemas of `patternProperties`: each key must be a regular
/// expression.
pub open spec fn compile_patterns(base: Seq<char>, pm: Seq<(Seq<char>, JsonV)>, i: int) -> Result<(Seq<(Seq<char>, Seq<char>)>, Entries), FromValueErrorV>
    decreases pm, 5int, pm.len() - i,
{
    if i < 0 || i >= pm.len() {
        Ok((Seq::empty(), Seq::empty()))
    } else if !regex_compiles(pm[i].0) {
        Err(FromValueErrorV::BadPattern(pm[i].0))
    } else {
        match push_or_err(base, pm[i].0) {
            Err(e) => Err(e),
            Ok(cu) => match compile_schema(cu, pm[i].1, false) {
                Err(e) => Err(e),
                Ok((r, es)) => match compile_patterns(base, pm, i + 1) {
                    Err(e) => Err(e),
                    Ok((ps, rest)) => Ok((seq![(pm[i].0, r)] + ps, es + rest)),
                },
            },
        }
    }
}

/// The entries of `dependencies`: a list of names, or a schema at
/// position `base/name`.
pub open spec fn compile_deps(base: Seq<char>, dm: Seq<(Seq<char>, JsonV)>, i: int) -> Result<(Seq<(Seq<char>, DependencyV)>, Entries), FromValueErrorV>
    decreases dm, 5int, dm.len() - i,
{
    if i < 0 || i >= dm.len() {
        Ok((Seq::empty(), Seq::empty()))
    } else {
        let this = match dm[i].1 {
            JsonV::Array(names) => match strings_of(names) {
                Some(ns) => Ok((DependencyV::Names(ns), Seq::empty())),
                None => Err(FromValueErrorV::InvalidKeywordType("dependencies"@, dm[i].1)),
            },
            _ => match push_or_err(base, dm[i].0) {
                Err(e) => Err(e),
                Ok(cu) => match compile_schema(cu, dm[i].1, false) {
                    Err(e) => Err(e),
                    Ok((r, es)) => Ok((DependencyV::Schema(r), es)),
                },
            },
        };
        match this {
            Err(e) => Err(e),
            Ok((d, es)) => match compile_deps(base, dm, i + 1) {
                Err(e) => Err(e),
                Ok((ds, rest)) => Ok((seq![(dm[i].0, d)] + ds, es + rest)),
            },
        }
    }
}

/// Members `i..` of an object schema, each keyword giving at most one
/// condition, in member order.
pub open spec fn compile_members(id: Seq<char>, m: Seq<(Seq<char>, JsonV)>, i: int) -> Result<(Seq<CondV>, Entries), FromValueErrorV>
    decreases m, 7int, m.len() - i,
{
    if i < 0 || i >= m.len() {
        Ok((Seq::empty(), Seq::empty()))
    } else {
        match compile_keyword(id, m[i].0, m[i].1) {
            Err(e) => Err(e),
            Ok((c, es)) => match compile_members(id, m, i + 1) {
                Err(e) => Err(e),
                Ok((cs, rest)) => Ok((opt_seq(c) + cs, es + rest)),
            },
        }
    }
}

/// A subschema at position `id/k`, as the URI it is stored under.
pub open spec fn sub_schema(id: Seq<char>, k: Seq<char>, v: JsonV) -> Result<(Seq<char>, Entries), FromValueErrorV>
    decreases v, 1int, 0int,
{
    match push_or_err(id, k) {
        Err(e) => Err(e),
        Ok(u) => compile_schema(u, v, false),
    }
}

/// A number usable as a keyword's bound: its denominator is positive.
pub open spec fn bound(k: Seq<char>, v: JsonV) -> Result<crate::number::Number, FromValueErrorV> {
    match v {
        JsonV::Number(n) => if n.wf() {
            Ok(n)
        } else {
            Err(FromValueErrorV::InvalidKeywordValue(k, v))
        },
        _ => Err(FromValueErrorV::InvalidKeywordType(k, v)),
    }
}

/// A count: a non-negative integer.
pub open spec fn count(k: Seq<char>, v: JsonV) -> Result<u64, FromValueErrorV> {
    match v {
        JsonV::Number(n) => if n.is_count() {
            Ok((n.mag / n.den) as u64)
        } else {
            Err(FromValueErrorV::InvalidKeywordValue(k, v))
        },
        _ => Err(FromValueErrorV::InvalidKeywordType(k, v)),
    }
}

/// The condition that one keyword gives, if any, with the schemas it
/// compiles. Keywords handled elsewhere, annotations and unknown keywords
/// give none.
pub open spec fn compile_keyword(id: Seq<char>, k: Seq<char>, v: JsonV) -> Result<(Option<CondV>, Entries), FromValueErrorV>
    decreases v, 6int, 0int,
{
    if k == "type"@ {
        match v {
            JsonV::String(s) => match type_named(s) {
                Some(t) => Ok((Some(CondV::Type(seq![t])), Seq::empty())),
                None => Err(FromValueErrorV::InvalidKeywordValue(k, v)),
            },
            JsonV::Array(a) => match types_of(a) {
                Some(ts) => Ok((Some(CondV::Type(ts)), Seq::empty())),
                None => Err(FromValueErrorV::InvalidKeywordValue(k, v)),
            },
            _ => Err(FromValueErrorV::InvalidKeywordType(k, v)),
        }
    } else if k == "multipleOf"@ {
        match bound(k, v) {
            Ok(n) => if n.mag > 0 && !n.neg {
                Ok((Some(CondV::MultipleOf(n)), Seq::empty()))
            } else {
                Err(FromValueErrorV::InvalidKeywordValue(k, v))
            },
            Err(e) => Err(e),
        }
    } else if k == "maximum"@ {
        match bound(k, v) {
            Ok(n) => Ok((Some(CondV::Maximum(n)), Seq::empty())),
            Err(e) => Err(e),
        }
    } else if k == "exclusiveMaximum"@ {
        match bound(k, v) {
            Ok(n) => Ok((Some(CondV::ExclusiveMaximum(n)), Seq::empty())),
            Err(e) => Err(e),
        }
    } else if k == "minimum"@ {
        match bound(k, v) {
            Ok(n) => Ok((Some(CondV::Minimum(n)), Seq::empty())),
            Err(e) => Err(e),
        }
    } else if k == "exclusiveMinimum"@ {
        match bound(k, v) {
            Ok(n) => Ok((Some(CondV::ExclusiveMinimum(n)), Seq::empty())),
            Err(e) => Err(e),
        }
    } else if k == "maxLength"@ {
        match count(k, v) {
            Ok(n) => Ok((Some(CondV::MaxLength(n)), Seq::empty())),
            Err(e) => Err(e),
        }
    } else if k == "minLength"@ {
        match count(k, v) {
            Ok(n) => Ok((Some(CondV::MinLength(n)), Seq::empty())),
            Err(e) => Err(e),
        }
    } else if k == "maxItems"@ {
        match count(k, v) {
            Ok(n) => Ok((Some(CondV::MaxItems(n)), Seq::empty())),
            Err(e) => Err(e),
        }
    } else if k == "minItems"@ {
        match count(k, v) {
            Ok(n) => Ok((Some(CondV::MinItems(n)), Seq::empty())),
            Err(e) => Err(e),
        }
    } else if k == "maxProperties"@ {
        match count(k, v) {
            Ok(n) => Ok((Some(CondV::MaxProperties(n)), Seq::empty())),
            Err(e) => Err(e),
        }
    } else if k == "minProperties"@ {
        match count(k, v) {
            Ok(n) => Ok((Some(CondV::MinProperties(n)), Seq::empty())),
            Err(e) => Err(e),
        }
    } else if k == "pattern"@ {
        match v {
            JsonV::String(s) => if regex_compiles(s) {
                Ok((Some(CondV::Pattern(s)), Seq::empty()))
            } else {
                Err(FromValueErrorV::BadPattern(s))
            },
            _ => Err(FromValueErrorV::InvalidKeywordType(k, v)),
        }
    } else if k == "uniqueItems"@ {
        match v {
            JsonV::Bool(b) => Ok((Some(CondV::UniqueItems(b)), Seq::empty())),
            _ => Err(FromValueErrorV::InvalidKeywordType(k, v)),
        }
    } else if k == "required"@ {
        match v {
            JsonV::Array(a) => match strings_of(a) {
                Some(ns) => Ok((Some(CondV::Required(ns)), Seq::empty())),
                None => Err(FromValueErrorV::InvalidKeywordType(k, v)),
            },
            _ => Err(FromValueErrorV::InvalidKeywordType(k, v)),
        }
    } else if k == "enum"@ {
        match v {
            JsonV::Array(a) => Ok((Some(CondV::Enum(a)), Seq::empty())),
            _ => Err(FromValueErrorV::InvalidKeywordType(k, v)),
        }
    } else if k == "const"@ {
        Ok((Some(CondV::Const(v)), Seq::empty()))
    } else if k == "contains"@ || k == "propertyNames"@ || k == "not"@ {
        match sub_schema(id, k, v) {
            Err(e) => Err(e),
            Ok((u, es)) => Ok(
                (
                    Some(
                        if k == "contains"@ {
                            CondV::Contains(u)
                        } else if k == "propertyNames"@ {
                            CondV::PropertyNames(u)
                        } else {
                            CondV::Not(u)
                        },
                    ),
                    es,
                ),
            ),
        }
    } else if k == "allOf"@ || k == "anyOf"@ || k == "oneOf"@ {
        match v {
            JsonV::Array(a) => match push_or_err(id, k) {
                Err(e) => Err(e),
                Ok(base) => match compile_list(base, a, 0) {
                    Err(e) => Err(e),
                    Ok((us, es)) => Ok(
                        (
                            Some(
                                if k == "allOf"@ {
                                    CondV::AllOf(us)
                                } else if k == "anyOf"@ {
                                    CondV::AnyOf(us)
                                } else {
                                    CondV::OneOf(us)
                                },
                            ),
                            es,
                        ),
                    ),
                },
            },
            _ => Err(FromValueErrorV::InvalidKeywordType(k, v)),
        }
    } else if k == "dependencies"@ {
        match v {
            JsonV::Object(dm) => match push_or_err(id, k) {
                Err(e) => Err(e),
                Ok(base) => match compile_deps(base, dm, 0) {
                    Err(e) => Err(e),
                    Ok((ds, es)) => Ok((Some(CondV::Dependencies(ds)), es)),
                },
            },
            _ => Err(FromValueErrorV::InvalidKeywordType(k, v)),
        }
    } else {
        Ok((None, Seq::empty()))
    }
}

/// The model of a compile outcome.
pub open spec fn built(r: Result<(String, Vec<(String, SchemaNode)>), FromValueError>) -> Result<(Seq<char>, Entries), FromValueErrorV> {
    match r {
        Ok((u, es)) => Ok((u@, stored_view(es@))),
        Err(e) => Err(e@),
    }
}

/// The model of an optional condition.
pub open spec fn opt_cond_view(o: Option<Condition>) -> Option<CondV> {
    match o {
        Some(c) => Some(c@),
        None => None,
    }
}

/// The model of the outcome of compiling one keyword.
pub open spec fn kw_view(r: Result<(Option<Condition>, Vec<(String, SchemaNode)>), FromValueError>) -> Result<(Option<CondV>, Entries), FromValueErrorV> {
    match r {
        Ok((c, es)) => Ok((opt_cond_view(c), stored_view(es@))),
        Err(e) => Err(e@),
    }
}

/// Appends compiled schemas.
fn append_entries(es: &mut Vec<(String, SchemaNode)>, other: Vec<(String, SchemaNode)>)
    ensures
        stored_view(final(es)@) == stored_view(old(es)@) + stored_view(other@),
{
    let mut o = other;
    es.append(&mut o);
    assert(stored_view(final(es)@) =~= stored_view(old(es)@) + stored_view(other@));
}

/// The strings of an array, or `None` where an element is not a string.
fn strings_exec(a: &Vec<Json>) -> (r: Option<Vec<String>>)
    ensures
        match r {
            Some(v) => strings_of(elems_view(a@)) == Some(strs_view(v@)),
            None => strings_of(elems_view(a@)) is None,
        },
{
    proof {
        lemma_elems_view(a@);
    }
    let ghost av = elems_view(a@);
    let mut out: Vec<String> = Vec::new();
    let mut i: usize = 0;
    while i < a.len()
        invariant
            i <= a.len(),
            av == elems_view(a@),
            av.len() == a@.len(),
            forall|x: int| 0 <= x < a@.len() ==> #[trigger] av[x] == crate::json::json_view(a@[x]),
            strings_of(av.subrange(0, i as int)) == Some(strs_view(out@)),
        decreases a.len() - i,
    {
        let ghost t = av.subrange(0, i as int + 1);
        assert(t.drop_last() =~= av.subrange(0, i as int));
        match &a[i] {
            Json::String(x) => {
                out.push(x.clone());
                assert(strs_view(out@) =~= strs_view(out@.drop_last()).push(x@));
            },
            _ => {
                assert(strings_of(t) is None);
                proof {
                    lemma_strings_prefix(av, i as int + 1);
                }
                return None;
            },
        }
        i = i + 1;
    }
    assert(av.subrange(0, a.len() as int) =~= av);
    Some(out)
}

/// A prefix without strings makes the whole array fail.
proof fn lemma_strings_prefix(a: Seq<JsonV>, n: int)
    requires
        0 <= n <= a.len(),
        strings_of(a.subrange(0, n)) is None,
    ensures
        strings_of(a) is None,
    decreases a.len() - n,
{
    if n < a.len() {
        let t = a.subrange(0, n + 1);
        assert(t.drop_last() =~= a.subrange(0, n));
        lemma_strings_prefix(a, n + 1);
    } else {
        assert(a.subrange(0, n) =~= a);
    }
}

/// A prefix that names no type makes the whole array fail.
proof fn lemma_types_prefix(a: Seq<JsonV>, n: int)
    requires
        0 <= n <= a.len(),
        types_of(a.subrange(0, n)) is None,
    ensures
        types_of(a) is None,
    decreases a.len() - n,
{
    if n < a.len() {
        let t = a.subrange(0, n + 1);
        assert(t.drop_last() =~= a.subrange(0, n));
        lemma_types_prefix(a, n + 1);
    } else {
        assert(a.subrange(0, n) =~= a);
    }
}

/// The types that an array of names names.
fn types_exec(a: &Vec<Json>) -> (r: Option<Vec<Type>>)
    ensures
        match r {
            Some(v) => types_of(elems_view(a@)) == Some(v@),
            None => types_of(elems_view(a@)) is None,
        },
{
    proof {
        lemma_elems_view(a@);
    }
    let ghost av = elems_view(a@);
    let mut out: Vec<Type> = Vec::new();
    let mut i: usize = 0;
    while i < a.len()
        invariant
            i <= a.len(),
            av == elems_view(a@),
            av.len() == a@.len(),
            forall|x: int| 0 <= x < a@.len() ==> #[trigger] av[x] == crate::json::json_view(a@[x]),
            types_of(av.subrange(0, i as int)) == Some(out@),
        decreases a.len() - i,
    {
        let ghost t = av.subrange(0, i as int + 1);
        assert(t.drop_last() =~= av.subrange(0, i as int));
        match &a[i] {
            Json::String(x) => match Type::from_string(x.as_str()) {
                Some(ty) => {
                    out.push(ty);
                },
                None => {
                    assert(types_of(t) is None);
                    proof {
                        lemma_types_prefix(av, i as int + 1);
                    }
                    return None;
                },
            },
            _ => {
                assert(types_of(t) is None);
                proof {
                    lemma_types_prefix(av, i as int + 1);
                }
                return None;
            },
        }
        i = i + 1;
    }
    assert(av.subrange(0, a.len() as int) =~= av);
    Some(out)
}

/// Checks `$schema`; see [`check_dialect`].
fn check_dialect_exec(m: &Vec<(String, Json)>, root: bool) -> (r: Result<(), FromValueError>)
    ensures
        match r {
            Ok(()) => check_dialect(members_view(m@), root) == Ok::<(), FromValueErrorV>(()),
            Err(e) => check_dialect(members_view(m@), root) == Err::<(), FromValueErrorV>(e@),
        },
{
    proof {
        lemma_members_view(m@);
    }
    match find_member(m, "$schema") {
        None => Ok(()),
        Some(ix) => {
            if !root {
                return Err(FromValueError::SubschemaUsesSchemaKeyword);
            }
            match &m[ix].1 {
                Json::String(s) => {
                    if str_equal(s.as_str(), "http://json-schema.org/draft-06/schema#") {
                        Ok(())
                    } else {
                        Err(FromValueError::UnknownSchemaVersion(s.clone()))
                    }
                },
                _ => Err(FromValueError::InvalidKeywordType(String::from_str("$schema"), m[ix].1.copy())),
            }
        },
    }
}

/// The URI of an object schema; see [`schema_id`].
fn schema_id_exec(m: &Vec<(String, Json)>, uri: &str) -> (r: Result<String, FromValueError>)
    ensures
        match r {
            Ok(u) => schema_id(members_view(m@), uri@) == Ok::<Seq<char>, FromValueErrorV>(u@),
            Err(e) => schema_id(members_view(m@), uri@) == Err::<Seq<char>, FromValueErrorV>(e@),
        },
{
    proof {
        lemma_members_view(m@);
    }
    match find_member(m, "$id") {
        None => Ok(uri.to_owned()),
        Some(ix) => match &m[ix].1 {
            Json::String(s) => match crate::uri::parse_url(s.as_str()) {
                Some(u) => Ok(u),
                None => Err(FromValueError::InvalidId(s.clone())),
            },
            _ => Err(FromValueError::InvalidKeywordType(String::from_str("$id"), m[ix].1.copy())),
        },
    }
}

/// An optional string keyword; see [`string_keyword`].
fn string_keyword_exec(m: &Vec<(String, Json)>, k: &str) -> (r: Result<Option<String>, FromValueError>)
    ensures
        match r {
            Ok(o) => string_keyword(members_view(m@), k@) == Ok::<Option<Seq<char>>, FromValueErrorV>(opt_str_view(o)),
            Err(e) => string_keyword(members_view(m@), k@) == Err::<Option<Seq<char>>, FromValueErrorV>(e@),
        },
{
    proof {
        lemma_members_view(m@);
    }
    match find_member(m, k) {
        None => Ok(None),
        Some(ix) => match &m[ix].1 {
            Json::String(s) => Ok(Some(s.clone())),
            _ => Err(FromValueError::InvalidKeywordType(k.to_owned(), m[ix].1.copy())),
        },
    }
}


/// Compiles the schema `j` at position `uri`; see [`compile_schema`].
pub fn parse_schema(uri: &str, j: &Json, root: bool) -> (r: Result<(String, Vec<(String, SchemaNode)>), FromValueError>)
    ensures
        built(r) == compile_schema(uri@, j@, root),
    decreases j, 0int,
{
    match j {
        Json::Bool(b) => {
            let val = if *b {
                Validator::Anything
            } else {
                Validator::Nothing
            };
            let mut es: Vec<(String, SchemaNode)> = Vec::new();
            es.push((uri.to_owned(), SchemaNode { description: None, title: None, validator: val }));
            assert(stored_view(es@) =~= compile_schema(uri@, j@, root)->Ok_0.1);
            Ok((uri.to_owned(), es))
        },
        Json::Object(m) => {
            proof {
                assert(decreases_to!(*j => j->Object_0));
            }
            parse_object(uri, m, root)
        },
        _ => Err(FromValueError::InvalidSchemaType(j.copy())),
    }
}

/// Compiles an object schema; see [`compile_object`].
fn parse_object(uri: &str, m: &Vec<(String, Json)>, root: bool) -> (r: Result<(String, Vec<(String, SchemaNode)>), FromValueError>)
    ensures
        built(r) == compile_object(uri@, members_view(m@), root),
    decreases m, 8int,
{
    let ghost mv = members_view(m@);
    proof {
        lemma_members_view(m@);
    }
    match check_dialect_exec(m, root) {
        Err(e) => {
            return Err(e);
        },
        Ok(()) => {},
    }
    let id = match schema_id_exec(m, uri) {
        Err(e) => {
            return Err(e);
        },
        Ok(id) => id,
    };
    let title = match string_keyword_exec(m, "title") {
        Err(e) => {
            return Err(e);
        },
        Ok(t) => t,
    };
    let description = match string_keyword_exec(m, "description") {
        Err(e) => {
            return Err(e);
        },
        Ok(d) => d,
    };
    let mut es = match parse_definitions(id.as_str(), m) {
        Err(e) => {
            return Err(e);
        },
        Ok(es) => es,
    };
    match find_member(m, "$ref") {
        Some(ix) => match &m[ix].1 {
            Json::String(r) => match crate::uri::join_url(id.as_str(), r.as_str()) {
                Some(t) => {
                    let ghost before = stored_view(es@);
                    es.push((id.clone(), SchemaNode { description, title, validator: Validator::Reference(t) }));
                    assert(stored_view(es@) =~= before.push(stored_view(es@).last()));
                    Ok((id, es))
                },
                None => Err(FromValueError::InvalidKeywordValue(String::from_str("$ref"), m[ix].1.copy())),
            },
            _ => Err(FromValueError::InvalidKeywordType(String::from_str("$ref"), m[ix].1.copy())),
        },
        None => {
            let (ic, ie) = match parse_items(id.as_str(), m) {
                Err(e) => {
                    return Err(e);
                },
                Ok(x) => x,
            };
            let (pc, pe) = match parse_properties(id.as_str(), m) {
                Err(e) => {
                    return Err(e);
                },
                Ok(x) => x,
            };
            let (rc, re) = match parse_members(id.as_str(), m) {
                Err(e) => {
                    return Err(e);
                },
                Ok(x) => x,
            };
            let mut cs: Vec<Condition> = Vec::new();
            let ghost icv = opt_cond_view(ic);
            let ghost pcv = opt_cond_view(pc);
            let ghost rcv = conds_view(rc@);
            match ic {
                Some(c) => cs.push(c),
                None => {},
            }
            match pc {
                Some(c) => cs.push(c),
                None => {},
            }
            let mut rc = rc;
            cs.append(&mut rc);
            assert(conds_view(cs@) =~= opt_seq(icv) + opt_seq(pcv) + rcv);
            let sorted = sort_by_priority(&cs);
            append_entries(&mut es, ie);
            append_entries(&mut es, pe);
            append_entries(&mut es, re);
            let ghost before = stored_view(es@);
            es.push((id.clone(), SchemaNode { description, title, validator: Validator::Conditions(sorted) }));
            assert(stored_view(es@) =~= before.push(stored_view(es@).last()));
            Ok((id, es))
        },
    }
}

/// Compiles the schemas under `definitions`; see [`definitions`].
fn parse_definitions(id: &str, m: &Vec<(String, Json)>) -> (r: Result<Vec<(String, SchemaNode)>, FromValueError>)
    ensures
        match r {
            Ok(es) => definitions(id@, members_view(m@)) == Ok::<Entries, FromValueErrorV>(stored_view(es@)),
            Err(e) => definitions(id@, members_view(m@)) == Err::<Entries, FromValueErrorV>(e@),
        },
    decreases m, 6int,
{
    proof {
        lemma_members_view(m@);
    }
    let none: Vec<(String, SchemaNode)> = Vec::new();
    assert(stored_view(none@) =~= Seq::<(Seq<char>, NodeV)>::empty());
    match find_member(m, "definitions") {
        None => Ok(none),
        Some(ix) => match &m[ix].1 {
            Json::Object(dm) => {
                let base = match push_checked(id, "definitions") {
                    Err(e) => {
                        return Err(e);
                    },
                    Ok(b) => b,
                };
                proof {
                    assert(decreases_to!(*m => m@));
                    assert(decreases_to!(m@ => m@[ix as int]));
                    assert(decreases_to!(m@[ix as int] => m@[ix as int].1));
                    assert(decreases_to!(m@[ix as int].1 => m@[ix as int].1->Object_0));
                }
                match parse_named(base.as_str(), dm) {
                    Err(e) => Err(e),
                    Ok((_, es)) => Ok(es),
                }
            },
            _ => Err(FromValueError::InvalidKeywordType(String::from_str("definitions"), m[ix].1.copy())),
        },
    }
}

/// Compiles `items` and `additionalItems`; see [`items_keyword`].
fn parse_items(id: &str, m: &Vec<(String, Json)>) -> (r: Result<(Option<Condition>, Vec<(String, SchemaNode)>), FromValueError>)
    ensures
        kw_view(r) == items_keyword(id@, members_view(m@)),
    decreases m, 6int,
{
    proof {
        lemma_members_view(m@);
    }
    let none: Vec<(String, SchemaNode)> = Vec::new();
    assert(stored_view(none@) =~= Seq::<(Seq<char>, NodeV)>::empty());
    match find_member(m, "items") {
        None => Ok((None, none)),
        Some(ix) => {
            let base = match push_checked(id, "items") {
                Err(e) => {
                    return Err(e);
                },
                Ok(b) => b,
            };
            proof {
                assert(decreases_to!(*m => m@));
                assert(decreases_to!(m@ => m@[ix as int]));
                assert(decreases_to!(m@[ix as int] => m@[ix as int].1));
            }
            match &m[ix].1 {
                Json::Array(a) => {
                    proof {
                        assert(decreases_to!(m@[ix as int].1 => m@[ix as int].1->Array_0));
                    }
                    let (pos, es1) = match parse_list(base.as_str(), a) {
                        Err(e) => {
                            return Err(e);
                        },
                        Ok(x) => x,
                    };
                    match find_member(m, "additionalItems") {
                        None => Ok((Some(Condition::Items(pos, None)), es1)),
                        Some(iy) => {
                            let au = match push_checked(id, "additionalItems") {
                                Err(e) => {
                                    return Err(e);
                                },
                                Ok(u) => u,
                            };
                            proof {
                                assert(decreases_to!(m@ => m@[iy as int]));
                                assert(decreases_to!(m@[iy as int] => m@[iy as int].1));
                            }
                            match parse_schema(au.as_str(), &m[iy].1, false) {
                                Err(e) => Err(e),
                                Ok((ar, es2)) => {
                                    let mut es = es1;
                                    append_entries(&mut es, es2);
                                    Ok((Some(Condition::Items(pos, Some(ar))), es))
                                },
                            }
                        },
                    }
                },
                _ => match parse_schema(base.as_str(), &m[ix].1, false) {
                    Err(e) => Err(e),
                    Ok((r, es)) => {
                        let pos: Vec<String> = Vec::new();
                        assert(strs_view(pos@) =~= Seq::<Seq<char>>::empty());
                        Ok((Some(Condition::Items(pos, Some(r))), es))
                    },
                },
            }
        },
    }
}

/// Compiles `properties`; see [`named_part`].
fn parse_named_part(id: &str, m: &Vec<(String, Json)>) -> (r: Result<(Option<Vec<(String, String)>>, Vec<(String, SchemaNode)>), FromValueError>)
    ensures
        match r {
            Ok((ns, es)) => named_part(id@, members_view(m@)) == Ok::<(Option<Seq<(Seq<char>, Seq<char>)>>, Entries), FromValueErrorV>(
                (
                    match ns {
                        Some(x) => Some(pairs_view(x@)),
                        None => None,
                    },
                    stored_view(es@),
                ),
            ),
            Err(e) => named_part(id@, members_view(m@)) == Err::<(Option<Seq<(Seq<char>, Seq<char>)>>, Entries), FromValueErrorV>(e@),
        },
    decreases m, 5int,
{
    proof {
        lemma_members_view(m@);
    }
    let none: Vec<(String, SchemaNode)> = Vec::new();
    assert(stored_view(none@) =~= Seq::<(Seq<char>, NodeV)>::empty());
    match find_member(m, "properties") {
        None => Ok((None, none)),
        Some(ix) => match &m[ix].1 {
            Json::Object(pm) => {
                let base = match push_checked(id, "properties") {
                    Err(e) => {
                        return Err(e);
                    },
                    Ok(b) => b,
                };
                proof {
                    assert(decreases_to!(*m => m@));
                    assert(decreases_to!(m@ => m@[ix as int]));
                    assert(decreases_to!(m@[ix as int] => m@[ix as int].1));
                    assert(decreases_to!(m@[ix as int].1 => m@[ix as int].1->Object_0));
                }
                match parse_named(base.as_str(), pm) {
                    Err(e) => Err(e),
                    Ok((ns, es)) => Ok((Some(ns), es)),
                }
            },
            _ => Err(FromValueError::InvalidKeywordType(String::from_str("properties"), m[ix].1.copy())),
        },
    }
}

/// Compiles `patternProperties`; see [`pattern_part`].
fn parse_pattern_part(id: &str, m: &Vec<(String, Json)>) -> (r: Result<(Option<Vec<(RegexWrapper, String)>>, Vec<(String, SchemaNode)>), FromValueError>)
    ensures
        match r {
            Ok((ps, es)) => pattern_part(id@, members_view(m@)) == Ok::<(Option<Seq<(Seq<char>, Seq<char>)>>, Entries), FromValueErrorV>(
                (
                    match ps {
                        Some(x) => Some(patterns_view(x@)),
                        None => None,
                    },
                    stored_view(es@),
                ),
            ),
            Err(e) => pattern_part(id@, members_view(m@)) == Err::<(Option<Seq<(Seq<char>, Seq<char>)>>, Entries), FromValueErrorV>(e@),
        },
    decreases m, 5int,
{
    proof {
        lemma_members_view(m@);
    }
    let none: Vec<(String, SchemaNode)> = Vec::new();
    assert(stored_view(none@) =~= Seq::<(Seq<char>, NodeV)>::empty());
    match find_member(m, "patternProperties") {
        None => Ok((None, none)),
        Some(ix) => match &m[ix].1 {
            Json::Object(pm) => {
                let base = match push_checked(id, "patternProperties") {
                    Err(e) => {
                        return Err(e);
                    },
                    Ok(b) => b,
                };
                proof {
                    assert(decreases_to!(*m => m@));
                    assert(decreases_to!(m@ => m@[ix as int]));
                    assert(decreases_to!(m@[ix as int] => m@[ix as int].1));
                    assert(decreases_to!(m@[ix as int].1 => m@[ix as int].1->Object_0));
                }
                match parse_patterns(base.as_str(), pm) {
                    Err(e) => Err(e),
                    Ok((ps, es)) => Ok((Some(ps), es)),
                }
            },
            _ => Err(FromValueError::InvalidKeywordType(String::from_str("patternProperties"), m[ix].1.copy())),
        },
    }
}

/// Compiles `additionalProperties`; see [`extra_part`].
fn parse_extra_part(id: &str, m: &Vec<(String, Json)>) -> (r: Result<(Option<String>, Vec<(String, SchemaNode)>), FromValueError>)
    ensures
        match r {
            Ok((a, es)) => extra_part(id@, members_view(m@)) == Ok::<(Option<Seq<char>>, Entries), FromValueErrorV>((opt_str_view(a), stored_view(es@))),
            Err(e) => extra_part(id@, members_view(m@)) == Err::<(Option<Seq<char>>, Entries), FromValueErrorV>(e@),
        },
    decreases m, 5int,
{
    proof {
        lemma_members_view(m@);
    }
    let none: Vec<(String, SchemaNode)> = Vec::new();
    assert(stored_view(none@) =~= Seq::<(Seq<char>, NodeV)>::empty());
    match find_member(m, "additionalProperties") {
        None => Ok((None, none)),
        Some(ix) => {
            let au = match push_checked(id, "additionalProperties") {
                Err(e) => {
                    return Err(e);
                },
                Ok(u) => u,
            };
            proof {
                assert(decreases_to!(*m => m@));
                assert(decreases_to!(m@ => m@[ix as int]));
                assert(decreases_to!(m@[ix as int] => m@[ix as int].1));
            }
            match parse_schema(au.as_str(), &m[ix].1, false) {
                Err(e) => Err(e),
                Ok((r, es)) => Ok((Some(r), es)),
            }
        },
    }
}

/// Compiles `properties`, `patternProperties` and `additionalProperties`;
/// see [`properties_keyword`].
fn parse_properties(id: &str, m: &Vec<(String, Json)>) -> (r: Result<(Option<Condition>, Vec<(String, SchemaNode)>), FromValueError>)
    ensures
        kw_view(r) == properties_keyword(id@, members_view(m@)),
    decreases m, 6int,
{
    let (names, mut es) = match parse_named_part(id, m) {
        Err(e) => {
            return Err(e);
        },
        Ok(x) => x,
    };
    let (pats, pes) = match parse_pattern_part(id, m) {
        Err(e) => {
            return Err(e);
        },
        Ok(x) => x,
    };
    let (additional, aes) = match parse_extra_part(id, m) {
        Err(e) => {
            return Err(e);
        },
        Ok(x) => x,
    };
    if names.is_none() && pats.is_none() && additional.is_none() {
        let none: Vec<(String, SchemaNode)> = Vec::new();
        assert(stored_view(none@) =~= Seq::<(Seq<char>, NodeV)>::empty());
        return Ok((None, none));
    }
    append_entries(&mut es, pes);
    append_entries(&mut es, aes);
    let ns = match names {
        Some(x) => x,
        None => {
            let x: Vec<(String, String)> = Vec::new();
            assert(pairs_view(x@) =~= Seq::<(Seq<char>, Seq<char>)>::empty());
            x
        },
    };
    let ps = match pats {
        Some(x) => x,
        None => {
            let x: Vec<(RegexWrapper, String)> = Vec::new();
            assert(patterns_view(x@) =~= Seq::<(Seq<char>, Seq<char>)>::empty());
            x
        },
    };
    Ok((Some(Condition::Properties(ns, ps, additional)), es))
}

/// Compiles the schemas of an array; see [`compile_list`].
fn parse_list(base: &str, a: &Vec<Json>) -> (r: Result<(Vec<String>, Vec<(String, SchemaNode)>), FromValueError>)
    ensures
        match r {
            Ok((us, es)) => compile_list(base@, elems_view(a@), 0) == Ok::<(Seq<Seq<char>>, Entries), FromValueErrorV>((strs_view(us@), stored_view(es@))),
            Err(e) => compile_list(base@, elems_view(a@), 0) == Err::<(Seq<Seq<char>>, Entries), FromValueErrorV>(e@),
        },
    decreases a, 5int,
{
    proof {
        lemma_elems_view(a@);
    }
    let ghost av = elems_view(a@);
    let mut us: Vec<String> = Vec::new();
    let mut es: Vec<(String, SchemaNode)> = Vec::new();
    assert(strs_view(us@) =~= Seq::<Seq<char>>::empty());
    assert(stored_view(es@) =~= Seq::<(Seq<char>, NodeV)>::empty());
    let mut i: usize = 0;
    while i < a.len()
        invariant
            i <= a.len(),
            av == elems_view(a@),
            av.len() == a@.len(),
            forall|x: int| 0 <= x < a@.len() ==> #[trigger] av[x] == crate::json::json_view(a@[x]),
            compile_list(base@, av, 0) == match compile_list(base@, av, i as int) {
                Err(e) => Err(e),
                Ok((xs, rest)) => Ok::<(Seq<Seq<char>>, Entries), FromValueErrorV>((strs_view(us@) + xs, stored_view(es@) + rest)),
            },
        decreases a.len() - i,
    {
        let idx = decimal_string(i);
        let cu = match push_checked(base, idx.as_str()) {
            Err(e) => {
                return Err(e);
            },
            Ok(u) => u,
        };
        proof {
            assert(decreases_to!(*a => a@));
            assert(decreases_to!(a@ => a@[i as int]));
        }
        let (r, ces) = match parse_schema(cu.as_str(), &a[i], false) {
            Err(e) => {
                return Err(e);
            },
            Ok(x) => x,
        };
        let ghost pu = strs_view(us@);
        let ghost pe = stored_view(es@);
        let ghost ce = stored_view(ces@);
        let ghost rv = r@;
        us.push(r);
        append_entries(&mut es, ces);
        proof {
            assert(strs_view(us@) =~= pu.push(rv));
            match compile_list(base@, av, i as int + 1) {
                Ok((xs, rest)) => {
                    assert(pu + (seq![rv] + xs) =~= pu.push(rv) + xs);
                    assert(pe + (ce + rest) =~= (pe + ce) + rest);
                },
                Err(_) => {},
            }
        }
        i = i + 1;
    }
    proof {
        assert(strs_view(us@) + Seq::<Seq<char>>::empty() =~= strs_view(us@));
        assert(stored_view(es@) + Seq::<(Seq<char>, NodeV)>::empty() =~= stored_view(es@));
    }
    Ok((us, es))
}

/// Compiles the schemas of an object's members; see [`compile_named`].
fn parse_named(base: &str, dm: &Vec<(String, Json)>) -> (r: Result<(Vec<(String, String)>, Vec<(String, SchemaNode)>), FromValueError>)
    ensures
        match r {
            Ok((ns, es)) => compile_named(base@, members_view(dm@), 0) == Ok::<(Seq<(Seq<char>, Seq<char>)>, Entries), FromValueErrorV>((pairs_view(ns@), stored_view(es@))),
            Err(e) => compile_named(base@, members_view(dm@), 0) == Err::<(Seq<(Seq<char>, Seq<char>)>, Entries), FromValueErrorV>(e@),
        },
    decreases dm, 5int,
{
    proof {
        lemma_members_view(dm@);
    }
    let ghost mv = members_view(dm@);
    let mut ns: Vec<(String, String)> = Vec::new();
    let mut es: Vec<(String, SchemaNode)> = Vec::new();
    assert(pairs_view(ns@) =~= Seq::<(Seq<char>, Seq<char>)>::empty());
    assert(stored_view(es@) =~= Seq::<(Seq<char>, NodeV)>::empty());
    let mut i: usize = 0;
    while i < dm.len()
        invariant
            i <= dm.len(),
            mv == members_view(dm@),
            mv.len() == dm@.len(),
            forall|x: int| 0 <= x < dm@.len() ==> #[trigger] mv[x] == (dm@[x].0@, crate::json::json_view(dm@[x].1)),
            compile_named(base@, mv, 0) == match compile_named(base@, mv, i as int) {
                Err(e) => Err(e),
                Ok((xs, rest)) => Ok::<(Seq<(Seq<char>, Seq<char>)>, Entries), FromValueErrorV>((pairs_view(ns@) + xs, stored_view(es@) + rest)),
            },
        decreases dm.len() - i,
    {
        let cu = match push_checked(base, dm[i].0.as_str()) {
            Err(e) => {
                return Err(e);
            },
            Ok(u) => u,
        };
        proof {
            assert(decreases_to!(*dm => dm@));
            assert(decreases_to!(dm@ => dm@[i as int]));
            assert(decreases_to!(dm@[i as int] => dm@[i as int].1));
        }
        let (r, ces) = match parse_schema(cu.as_str(), &dm[i].1, false) {
            Err(e) => {
                return Err(e);
            },
            Ok(x) => x,
        };
        let ghost pn = pairs_view(ns@);
        let ghost pe = stored_view(es@);
        let ghost ce = stored_view(ces@);
        let ghost item = (dm@[i as int].0@, r@);
        ns.push((dm[i].0.clone(), r));
        append_entries(&mut es, ces);
        proof {
            assert(pairs_view(ns@) =~= pn.push(item));
            match compile_named(base@, mv, i as int + 1) {
                Ok((xs, rest)) => {
                    assert(pn + (seq![item] + xs) =~= pn.push(item) + xs);
                    assert(pe + (ce + rest) =~= (pe + ce) + rest);
                },
                Err(_) => {},
            }
        }
        i = i + 1;
    }
    proof {
        assert(pairs_view(ns@) + Seq::<(Seq<char>, Seq<char>)>::empty() =~= pairs_view(ns@));
        assert(stored_view(es@) + Seq::<(Seq<char>, NodeV)>::empty() =~= stored_view(es@));
    }
    Ok((ns, es))
}

/// Compiles `patternProperties`; see [`compile_patterns`].
fn parse_patterns(base: &str, pm: &Vec<(String, Json)>) -> (r: Result<(Vec<(RegexWrapper, String)>, Vec<(String, SchemaNode)>), FromValueError>)
    ensures
        match r {
            Ok((ps, es)) => compile_patterns(base@, members_view(pm@), 0) == Ok::<(Seq<(Seq<char>, Seq<char>)>, Entries), FromValueErrorV>((patterns_view(ps@), stored_view(es@))),
            Err(e) => compile_patterns(base@, members_view(pm@), 0) == Err::<(Seq<(Seq<char>, Seq<char>)>, Entries), FromValueErrorV>(e@),
        },
    decreases pm, 5int,
{
    proof {
        lemma_members_view(pm@);
    }
    let ghost mv = members_view(pm@);
    let mut ps: Vec<(RegexWrapper, String)> = Vec::new();
    let mut es: Vec<(String, SchemaNode)> = Vec::new();
    assert(patterns_view(ps@) =~= Seq::<(Seq<char>, Seq<char>)>::empty());
    assert(stored_view(es@) =~= Seq::<(Seq<char>, NodeV)>::empty());
    let mut i: usize = 0;
    while i < pm.len()
        invariant
            i <= pm.len(),
            mv == members_view(pm@),
            mv.len() == pm@.len(),
            forall|x: int| 0 <= x < pm@.len() ==> #[trigger] mv[x] == (pm@[x].0@, crate::json::json_view(pm@[x].1)),
            compile_patterns(base@, mv, 0) == match compile_patterns(base@, mv, i as int) {
                Err(e) => Err(e),
                Ok((xs, rest)) => Ok::<(Seq<(Seq<char>, Seq<char>)>, Entries), FromValueErrorV>((patterns_view(ps@) + xs, stored_view(es@) + rest)),
            },
        decreases pm.len() - i,
    {
        let pat = match RegexWrapper::compile(pm[i].0.as_str()) {
            Err(_) => {
                return Err(FromValueError::BadPattern(pm[i].0.clone()));
            },
            Ok(p) => p,
        };
        let cu = match push_checked(base, pm[i].0.as_str()) {
            Err(e) => {
                return Err(e);
            },
            Ok(u) => u,
        };
        proof {
            assert(decreases_to!(*pm => pm@));
            assert(decreases_to!(pm@ => pm@[i as int]));
            assert(decreases_to!(pm@[i as int] => pm@[i as int].1));
        }
        let (r, ces) = match parse_schema(cu.as_str(), &pm[i].1, false) {
            Err(e) => {
                return Err(e);
            },
            Ok(x) => x,
        };
        let ghost pp = patterns_view(ps@);
        let ghost pe = stored_view(es@);
        let ghost ce = stored_view(ces@);
        let ghost item = (pm@[i as int].0@, r@);
        ps.push((pat, r));
        append_entries(&mut es, ces);
        proof {
            assert(patterns_view(ps@) =~= pp.push(item));
            match compile_patterns(base@, mv, i as int + 1) {
                Ok((xs, rest)) => {
                    assert(pp + (seq![item] + xs) =~= pp.push(item) + xs);
                    assert(pe + (ce + rest) =~= (pe + ce) + rest);
                },
                Err(_) => {},
            }
        }
        i = i + 1;
    }
    proof {
        assert(patterns_view(ps@) + Seq::<(Seq<char>, Seq<char>)>::empty() =~= patterns_view(ps@));
        assert(stored_view(es@) + Seq::<(Seq<char>, NodeV)>::empty() =~= stored_view(es@));
    }
    Ok((ps, es))
}

/// Compiles `dependencies`; see [`compile_deps`].
fn parse_deps(base: &str, dm: &Vec<(String, Json)>) -> (r: Result<(Vec<(String, Dependency)>, Vec<(String, SchemaNode)>), FromValueError>)
    ensures
        match r {
            Ok((ds, es)) => compile_deps(base@, members_view(dm@), 0) == Ok::<(Seq<(Seq<char>, DependencyV)>, Entries), FromValueErrorV>((deps_view(ds@), stored_view(es@))),
            Err(e) => compile_deps(base@, members_view(dm@), 0) == Err::<(Seq<(Seq<char>, DependencyV)>, Entries), FromValueErrorV>(e@),
        },
    decreases dm, 5int,
{
    proof {
        lemma_members_view(dm@);
    }
    let ghost mv = members_view(dm@);
    let mut ds: Vec<(String, Dependency)> = Vec::new();
    let mut es: Vec<(String, SchemaNode)> = Vec::new();
    assert(deps_view(ds@) =~= Seq::<(Seq<char>, DependencyV)>::empty());
    assert(stored_view(es@) =~= Seq::<(Seq<char>, NodeV)>::empty());
    let mut i: usize = 0;
    while i < dm.len()
        invariant
            i <= dm.len(),
            mv == members_view(dm@),
            mv.len() == dm@.len(),
            forall|x: int| 0 <= x < dm@.len() ==> #[trigger] mv[x] == (dm@[x].0@, crate::json::json_view(dm@[x].1)),
            compile_deps(base@, mv, 0) == match compile_deps(base@, mv, i as int) {
                Err(e) => Err(e),
                Ok((xs, rest)) => Ok::<(Seq<(Seq<char>, DependencyV)>, Entries), FromValueErrorV>((deps_view(ds@) + xs, stored_view(es@) + rest)),
            },
        decreases dm.len() - i,
    {
        let (d, ces) = match &dm[i].1 {
            Json::Array(names) => match strings_exec(names) {
                Some(ns) => (Dependency::Names(ns), Vec::new()),
                None => {
                    return Err(FromValueError::InvalidKeywordType(String::from_str("dependencies"), dm[i].1.copy()));
                },
            },
            _ => {
                let cu = match push_checked(base, dm[i].0.as_str()) {
                    Err(e) => {
                        return Err(e);
                    },
                    Ok(u) => u,
                };
                proof {
                    assert(decreases_to!(*dm => dm@));
                    assert(decreases_to!(dm@ => dm@[i as int]));
                    assert(decreases_to!(dm@[i as int] => dm@[i as int].1));
                }
                match parse_schema(cu.as_str(), &dm[i].1, false) {
                    Err(e) => {
                        return Err(e);
                    },
                    Ok((r, ces)) => (Dependency::Schema(r), ces),
                }
            },
        };
        let ghost pd = deps_view(ds@);
        let ghost pe = stored_view(es@);
        let ghost ce = stored_view(ces@);
        let ghost item = (dm@[i as int].0@, d@);
        proof {
            assert(ce == Seq::<(Seq<char>, NodeV)>::empty() || !(dm@[i as int].1 is Array));
        }
        ds.push((dm[i].0.clone(), d));
        append_entries(&mut es, ces);
        proof {
            assert(deps_view(ds@) =~= pd.push(item));
            match compile_deps(base@, mv, i as int + 1) {
                Ok((xs, rest)) => {
                    assert(pd + (seq![item] + xs) =~= pd.push(item) + xs);
                    assert(pe + (ce + rest) =~= (pe + ce) + rest);
                },
                Err(_) => {},
            }
        }
        i = i + 1;
    }
    proof {
        assert(deps_view(ds@) + Seq::<(Seq<char>, DependencyV)>::empty() =~= deps_view(ds@));
        assert(stored_view(es@) + Seq::<(Seq<char>, NodeV)>::empty() =~= stored_view(es@));
    }
    Ok((ds, es))
}

/// Compiles the keywords of an object schema in member order; see
/// [`compile_members`].
fn parse_members(id: &str, m: &Vec<(String, Json)>) -> (r: Result<(Vec<Condition>, Vec<(String, SchemaNode)>), FromValueError>)
    ensures
        match r {
            Ok((cs, es)) => compile_members(id@, members_view(m@), 0) == Ok::<(Seq<CondV>, Entries), FromValueErrorV>((conds_view(cs@), stored_view(es@))),
            Err(e) => compile_members(id@, members_view(m@), 0) == Err::<(Seq<CondV>, Entries), FromValueErrorV>(e@),
        },
    decreases m, 7int,
{
    proof {
        lemma_members_view(m@);
    }
    let ghost mv = members_view(m@);
    let mut cs: Vec<Condition> = Vec::new();
    let mut es: Vec<(String, SchemaNode)> = Vec::new();
    assert(conds_view(cs@) =~= Seq::<CondV>::empty());
    assert(stored_view(es@) =~= Seq::<(Seq<char>, NodeV)>::empty());
    let mut i: usize = 0;
    while i < m.len()
        invariant
            i <= m.len(),
            mv == members_view(m@),
            mv.len() == m@.len(),
            forall|x: int| 0 <= x < m@.len() ==> #[trigger] mv[x] == (m@[x].0@, crate::json::json_view(m@[x].1)),
            compile_members(id@, mv, 0) == match compile_members(id@, mv, i as int) {
                Err(e) => Err(e),
                Ok((xs, rest)) => Ok::<(Seq<CondV>, Entries), FromValueErrorV>((conds_view(cs@) + xs, stored_view(es@) + rest)),
            },
        decreases m.len() - i,
    {
        proof {
            assert(decreases_to!(*m => m@));
            assert(decreases_to!(m@ => m@[i as int]));
            assert(decreases_to!(m@[i as int] => m@[i as int].1));
        }
        let (c, ces) = match parse_keyword(id, m[i].0.as_str(), &m[i].1) {
            Err(e) => {
                return Err(e);
            },
            Ok(x) => x,
        };
        let ghost pc = conds_view(cs@);
        let ghost pe = stored_view(es@);
        let ghost ce = stored_view(ces@);
        let ghost cv = opt_cond_view(c);
        match c {
            Some(x) => cs.push(x),
            None => {},
        }
        append_entries(&mut es, ces);
        proof {
            assert(conds_view(cs@) =~= pc + opt_seq(cv));
            match compile_members(id@, mv, i as int + 1) {
                Ok((xs, rest)) => {
                    assert(pc + (opt_seq(cv) + xs) =~= (pc + opt_seq(cv)) + xs);
                    assert(pe + (ce + rest) =~= (pe + ce) + rest);
                },
                Err(_) => {},
            }
        }
        i = i + 1;
    }
    proof {
        assert(conds_view(cs@) + Seq::<CondV>::empty() =~= conds_view(cs@));
        assert(stored_view(es@) + Seq::<(Seq<char>, NodeV)>::empty() =~= stored_view(es@));
    }
    Ok((cs, es))
}

/// A keyword's number bound; see [`bound`].
fn bound_exec(k: &str, v: &Json) -> (r: Result<crate::number::Number, FromValueError>)
    ensures
        match r {
            Ok(n) => bound(k@, v@) == Ok::<crate::number::Number, FromValueErrorV>(n),
            Err(e) => bound(k@, v@) == Err::<crate::number::Number, FromValueErrorV>(e@),
        },
{
    match v {
        Json::Number(n) => if n.den > 0 {
            Ok(*n)
        } else {
            Err(FromValueError::InvalidKeywordValue(k.to_owned(), v.copy()))
        },
        _ => Err(FromValueError::InvalidKeywordType(k.to_owned(), v.copy())),
    }
}

/// A keyword's count; see [`count`].
fn count_exec(k: &str, v: &Json) -> (r: Result<u64, FromValueError>)
    ensures
        match r {
            Ok(n) => count(k@, v@) == Ok::<u64, FromValueErrorV>(n),
            Err(e) => count(k@, v@) == Err::<u64, FromValueErrorV>(e@),
        },
{
    match v {
        Json::Number(n) => if n.is_integer() && (n.mag == 0 || !n.neg) {
            Ok(n.mag / n.den)
        } else {
            Err(FromValueError::InvalidKeywordValue(k.to_owned(), v.copy()))
        },
        _ => Err(FromValueError::InvalidKeywordType(k.to_owned(), v.copy())),
    }
}

/// Compiles a subschema at position `id/k`; see [`sub_schema`].
fn parse_sub(id: &str, k: &str, v: &Json) -> (r: Result<(String, Vec<(String, SchemaNode)>), FromValueError>)
    ensures
        built(r) == sub_schema(id@, k@, v@),
    decreases v, 1int,
{
    match push_checked(id, k) {
        Err(e) => Err(e),
        Ok(u) => parse_schema(u.as_str(), v, false),
    }
}

/// Compiles one keyword; see [`compile_keyword`].
fn parse_keyword(id: &str, k: &str, v: &Json) -> (r: Result<(Option<Condition>, Vec<(String, SchemaNode)>), FromValueError>)
    ensures
        kw_view(r) == compile_keyword(id@, k@, v@),
    decreases v, 6int,
{
    let none: Vec<(String, SchemaNode)> = Vec::new();
    assert(stored_view(none@) =~= Seq::<(Seq<char>, NodeV)>::empty());
    if str_equal(k, "type") {
        match v {
            Json::String(s) => match Type::from_string(s.as_str()) {
                Some(t) => {
                    let ts = vec![t];
                    assert(ts@ =~= seq![t]);
                    Ok((Some(Condition::Type(ts)), none))
                },
                None => Err(FromValueError::InvalidKeywordValue(k.to_owned(), v.copy())),
            },
            Json::Array(a) => match types_exec(a) {
                Some(ts) => Ok((Some(Condition::Type(ts)), none)),
                None => Err(FromValueError::InvalidKeywordValue(k.to_owned(), v.copy())),
            },
            _ => Err(FromValueError::InvalidKeywordType(k.to_owned(), v.copy())),
        }
    } else if str_equal(k, "multipleOf") {
        match bound_exec(k, v) {
            Ok(n) => if n.mag > 0 && !n.neg {
                Ok((Some(Condition::MultipleOf(n)), none))
            } else {
                Err(FromValueError::InvalidKeywordValue(k.to_owned(), v.copy()))
            },
            Err(e) => Err(e),
        }
    } else if str_equal(k, "maximum") {
        match bound_exec(k, v) {
            Ok(n) => Ok((Some(Condition::Maximum(n)), none)),
            Err(e) => Err(e),
        }
    } else if str_equal(k, "exclusiveMaximum") {
        match bound_exec(k, v) {
            Ok(n) => Ok((Some(Condition::ExclusiveMaximum(n)), none)),
            Err(e) => Err(e),
        }
    } else if str_equal(k, "minimum") {
        match bound_exec(k, v) {
            Ok(n) => Ok((Some(Condition::Minimum(n)), none)),
            Err(e) => Err(e),
        }
    } else if str_equal(k, "exclusiveMinimum") {
        match bound_exec(k, v) {
            Ok(n) => Ok((Some(Condition::ExclusiveMinimum(n)), none)),
            Err(e) => Err(e),
        }
    } else if str_equal(k, "maxLength") {
        match count_exec(k, v) {
            Ok(n) => Ok((Some(Condition::MaxLength(n)), none)),
            Err(e) => Err(e),
        }
    } else if str_equal(k, "minLength") {
        match count_exec(k, v) {
            Ok(n) => Ok((Some(Condition::MinLength(n)), none)),
            Err(e) => Err(e),
        }
    } else if str_equal(k, "maxItems") {
        match count_exec(k, v) {
            Ok(n) => Ok((Some(Condition::MaxItems(n)), none)),
            Err(e) => Err(e),
        }
    } else if str_equal(k, "minItems") {
        match count_exec(k, v) {
            Ok(n) => Ok((Some(Condition::MinItems(n)), none)),
            Err(e) => Err(e),
        }
    } else if str_equal(k, "maxProperties") {
        match count_exec(k, v) {
            Ok(n) => Ok((Some(Condition::MaxProperties(n)), none)),
            Err(e) => Err(e),
        }
    } else if str_equal(k, "minProperties") {
        match count_exec(k, v) {
            Ok(n) => Ok((Some(Condition::MinProperties(n)), none)),
            Err(e) => Err(e),
        }
    } else if str_equal(k, "pattern") {
        match v {
            Json::String(s) => match RegexWrapper::compile(s.as_str()) {
                Ok(p) => Ok((Some(Condition::Pattern(p)), none)),
                Err(_) => Err(FromValueError::BadPattern(s.clone())),
            },
            _ => Err(FromValueError::InvalidKeywordType(k.to_owned(), v.copy())),
        }
    } else if str_equal(k, "uniqueItems") {
        match v {
            Json::Bool(b) => Ok((Some(Condition::UniqueItems(*b)), none)),
            _ => Err(FromValueError::InvalidKeywordType(k.to_owned(), v.copy())),
        }
    } else if str_equal(k, "required") {
        match v {
            Json::Array(a) => match strings_exec(a) {
                Some(ns) => Ok((Some(Condition::Required(ns)), none)),
                None => Err(FromValueError::InvalidKeywordType(k.to_owned(), v.copy())),
            },
            _ => Err(FromValueError::InvalidKeywordType(k.to_owned(), v.copy())),
        }
    } else if str_equal(k, "enum") {
        match v {
            Json::Array(a) => {
                let mut out: Vec<Json> = Vec::new();
                let mut i: usize = 0;
                while i < a.len()
                    invariant
                        i <= a.len(),
                        out@.len() == i,
                        forall|x: int| 0 <= x < i ==> (#[trigger] out@[x])@ == a@[x]@,
                    decreases a.len() - i,
                {
                    out.push(a[i].copy());
                    i = i + 1;
                }
                proof {
                    lemma_elems_view(a@);
                    assert(crate::condition::jsons_view(out@) =~= elems_view(a@));
                }
                Ok((Some(Condition::Enum(out)), none))
            },
            _ => Err(FromValueError::InvalidKeywordType(k.to_owned(), v.copy())),
        }
    } else if str_equal(k, "const") {
        Ok((Some(Condition::Const(v.copy())), none))
    } else if str_equal(k, "contains") || str_equal(k, "propertyNames") || str_equal(k, "not") {
        match parse_sub(id, k, v) {
            Err(e) => Err(e),
            Ok((u, es)) => {
                let c = if str_equal(k, "contains") {
                    Condition::Contains(u)
                } else if str_equal(k, "propertyNames") {
                    Condition::PropertyNames(u)
                } else {
                    Condition::Not(u)
                };
                Ok((Some(c), es))
            },
        }
    } else if str_equal(k, "allOf") || str_equal(k, "anyOf") || str_equal(k, "oneOf") {
        match v {
            Json::Array(a) => match push_checked(id, k) {
                Err(e) => Err(e),
                Ok(base) => {
                    proof {
                        assert(decreases_to!(*v => v->Array_0));
                    }
                    match parse_list(base.as_str(), a) {
                        Err(e) => Err(e),
                        Ok((us, es)) => {
                            let c = if str_equal(k, "allOf") {
                                Condition::AllOf(us)
                            } else if str_equal(k, "anyOf") {
                                Condition::AnyOf(us)
                            } else {
                                Condition::OneOf(us)
                            };
                            Ok((Some(c), es))
                        },
                    }
                },
            },
            _ => Err(FromValueError::InvalidKeywordType(k.to_owned(), v.copy())),
        }
    } else if str_equal(k, "dependencies") {
        match v {
            Json::Object(dm) => match push_checked(id, k) {
                Err(e) => Err(e),
                Ok(base) => {
                    proof {
                        assert(decreases_to!(*v => v->Object_0));
                    }
                    match parse_deps(base.as_str(), dm) {
                        Err(e) => Err(e),
                        Ok((ds, es)) => Ok((Some(Condition::Dependencies(ds)), es)),
                    }
                },
            },
            _ => Err(FromValueError::InvalidKeywordType(k.to_owned(), v.copy())),
        }
    } else {
        Ok((None, none))
    }
}

/// The outcome of compiling a document under a base URI: the base must be
/// an absolute URI, and the document a schema.
pub open spec fn compile_document(base: Seq<char>, doc: JsonV) -> Result<(Seq<char>, Entries), FromValueErrorV> {
    match url_parsed(base) {
        None => Err(FromValueErrorV::InvalidId(base)),
        Some(b) => compile_schema(b, doc, true),
    }
}

impl Context {
    /// Compiles the document under the base URI and stores every schema in
    /// it; returns the URI of its root. On an error nothing is stored.
    pub fn compile(&mut self, base_uri: &str, json: &Json) -> (r: Result<String, FromValueError>)
        ensures
            match compile_document(base_uri@, json@) {
                Ok((u, es)) => r is Ok && r->Ok_0@ == u && final(self)@ == put_all(old(self)@, es),
                Err(e) => r is Err && r->Err_0@ == e && final(self)@ == old(self)@,
            },
    {
        let base = match crate::uri::parse_url(base_uri) {
            None => {
                return Err(FromValueError::InvalidId(base_uri.to_owned()));
            },
            Some(b) => b,
        };
        match parse_schema(base.as_str(), json, true) {
            Err(e) => Err(e),
            Ok((u, es)) => {
                self.put_all(es);
                Ok(u)
            },
        }
    }

    /// Compiles the document as [`Context::compile`] does, and gives a
    /// handle on its root schema.
    pub fn make_schema<'a>(&'a mut self, base_uri: &str, json: &Json) -> (r: Result<JsonSchema<'a>, FromValueError>)
        ensures
            match compile_document(base_uri@, json@) {
                Ok((u, es)) => r is Ok && r->Ok_0.id@ == u && final(self)@ == put_all(old(self)@, es)
                    && r->Ok_0.ctx@ == final(self)@,
                Err(e) => r is Err && r->Err_0@ == e && final(self)@ == old(self)@,
            },
    {
        match self.compile(base_uri, json) {
            Err(e) => Err(e),
            Ok(u) => {
                let ctx: &'a Context = self;
                Ok(JsonSchema { ctx, id: u })
            },
        }
    }

    /// Validates the document against the metaschema stored under
    /// `metaschema_uri` first, and compiles it only where it passes.
    pub fn compile_checked(&mut self, metaschema_uri: &str, base_uri: &str, json: &Json) -> (r: Result<String, FromValueError>)
        ensures
            match crate::validate::check_uri(old(self)@, metaschema_uri@, json@, crate::validate::MAX_DEPTH as nat) {
                Err(e) => r is Err && r->Err_0@ == FromValueErrorV::MetaschemaFailedToValidate(e)
                    && final(self)@ == old(self)@,
                Ok(()) => match compile_document(base_uri@, json@) {
                    Ok((u, es)) => r is Ok && r->Ok_0@ == u && final(self)@ == put_all(old(self)@, es),
                    Err(e) => r is Err && r->Err_0@ == e && final(self)@ == old(self)@,
                },
            },
    {
        match crate::validate::validate_uri(self, metaschema_uri, json, crate::validate::MAX_DEPTH) {
            Err(e) => Err(FromValueError::MetaschemaFailedToValidate(e)),
            Ok(()) => self.compile(base_uri, json),
        }
    }
}

} // verus!
