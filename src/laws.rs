use vstd::prelude::*;

use crate::condition::{priority, CondV};
use crate::context::{put_all, NodeV, ValidatorV};
use crate::errors::ValidationErrorV;
use crate::json::JsonV;
use crate::parse::{
    by_priority, compile_document, compile_keyword, compile_members, compile_object, compile_schema,
    find_key, opt_seq, with_priority, Entries,
};
use crate::validate::{check_cond, check_conds, check_uri, check_validator, holds, some_type, Registry};

verus! {

/// The schema stored last under a URI is the one found there, whatever the
/// registry held before.
proof fn lemma_put_all_key(r1: Registry, r2: Registry, es: Entries, k: Seq<char>)
    ensures
        (exists|i: int| 0 <= i < es.len() && #[trigger] es[i].0 == k) ==> put_all(r1, es).contains_key(k)
            && put_all(r2, es).contains_key(k) && put_all(r1, es)[k] == put_all(r2, es)[k],
        !(exists|i: int| 0 <= i < es.len() && #[trigger] es[i].0 == k) ==> (put_all(r1, es).contains_key(k)
            == r1.contains_key(k) && put_all(r1, es)[k] == r1[k]),
    decreases es.len(),
{
    if es.len() > 0 {
        let d = es.drop_last();
        lemma_put_all_key(r1, r2, d, k);
        if es.last().0 != k {
            if exists|i: int| 0 <= i < es.len() && #[trigger] es[i].0 == k {
                let i = choose|i: int| 0 <= i < es.len() && #[trigger] es[i].0 == k;
                assert(d[i].0 == k);
            }
            if exists|i: int| 0 <= i < d.len() && #[trigger] d[i].0 == k {
                let i = choose|i: int| 0 <= i < d.len() && #[trigger] d[i].0 == k;
                assert(es[i].0 == k);
            }
        } else {
            assert(es[es.len() - 1].0 == k);
        }
    }
}

/// A compiled schema is stored last, under the URI that compiling returns.
proof fn lemma_root_last(uri: Seq<char>, j: JsonV, root: bool)
    ensures
        compile_schema(uri, j, root) matches Ok((u, es)) ==> es.len() > 0 && es.last().0 == u,
{
}

/// Every value passes the `true` schema, and every value fails the `false`
/// schema with `NoValuesPass`; compiled into any registry, the two schemas
/// decide so under their URI whenever at least one link may be followed.
pub proof fn lemma_true_and_false(reg: Registry, uri: Seq<char>, root: bool, v: JsonV, fuel: nat)
    requires
        fuel > 0,
    ensures
        check_validator(reg, ValidatorV::Anything, v, fuel) == Ok::<(), ValidationErrorV>(()),
        check_validator(reg, ValidatorV::Nothing, v, fuel) == Err::<(), ValidationErrorV>(
            ValidationErrorV::NoValuesPass(v),
        ),
        compile_schema(uri, JsonV::Bool(true), root) matches Ok((u, es)) && check_uri(put_all(reg, es), u, v, fuel)
            == Ok::<(), ValidationErrorV>(()),
        compile_schema(uri, JsonV::Bool(false), root) matches Ok((u, es)) && check_uri(put_all(reg, es), u, v, fuel)
            == Err::<(), ValidationErrorV>(ValidationErrorV::NoValuesPass(v)),
{
    let (u1, es1) = compile_schema(uri, JsonV::Bool(true), root)->Ok_0;
    assert(put_all(reg, es1) == put_all(reg, es1.drop_last()).insert(es1.last().0, es1.last().1));
    let (u2, es2) = compile_schema(uri, JsonV::Bool(false), root)->Ok_0;
    assert(put_all(reg, es2) == put_all(reg, es2.drop_last()).insert(es2.last().0, es2.last().1));
}

/// Compiling one document twice under one base URI gives the same root URI
/// and the same schemas: every schema it stores, the root among them, does
/// not depend on what the context held before, and compiling a second time
/// into the same context leaves it as it was.
pub proof fn lemma_compile_idempotent(reg1: Registry, reg2: Registry, base: Seq<char>, doc: JsonV)
    requires
        compile_document(base, doc) is Ok,
    ensures
        ({
            let (u, es) = compile_document(base, doc)->Ok_0;
            &&& put_all(reg1, es).contains_key(u)
            &&& put_all(reg2, es).contains_key(u)
            &&& put_all(reg1, es)[u] == put_all(reg2, es)[u]
            &&& forall|i: int|
                0 <= i < es.len() ==> put_all(reg1, es)[#[trigger] es[i].0] == put_all(reg2, es)[es[i].0]
            &&& put_all(put_all(reg1, es), es) == put_all(reg1, es)
        }),
{
    let (u, es) = compile_document(base, doc)->Ok_0;
    let b = crate::uri::url_parsed(base)->0;
    lemma_root_last(b, doc, true);
    assert(es[es.len() - 1].0 == u);
    lemma_put_all_key(reg1, reg2, es, u);
    assert forall|i: int| 0 <= i < es.len() implies put_all(reg1, es)[#[trigger] es[i].0] == put_all(reg2, es)[es[i].0] by {
        lemma_put_all_key(reg1, reg2, es, es[i].0);
    }
    let once = put_all(reg1, es);
    let twice = put_all(once, es);
    assert forall|k: Seq<char>| #[trigger] twice.contains_key(k) == once.contains_key(k) by {
        lemma_put_all_key(once, reg1, es, k);
    }
    assert forall|k: Seq<char>| once.contains_key(k) implies #[trigger] twice[k] == once[k] by {
        lemma_put_all_key(once, reg1, es, k);
    }
    assert(twice =~= once);
}

/// Every condition of priority 0 is a `Type` condition.
proof fn lemma_with_priority_zero(cs: Seq<CondV>)
    ensures
        forall|i: int| 0 <= i < with_priority(cs, 0).len() ==> #[trigger] with_priority(cs, 0)[i] is Type,
        forall|i: int| 0 <= i < with_priority(cs, 0).len() ==> cs.contains(#[trigger] with_priority(cs, 0)[i]),
        forall|i: int| 0 <= i < cs.len() && cs[i] is Type ==> with_priority(cs, 0).contains(#[trigger] cs[i]),
    decreases cs.len(),
{
    if cs.len() > 0 {
        lemma_with_priority_zero(cs.drop_last());
        let w = with_priority(cs.drop_last(), 0);
        assert forall|i: int| 0 <= i < with_priority(cs, 0).len() implies cs.contains(#[trigger] with_priority(cs, 0)[i]) by {
            if i < w.len() {
                assert(with_priority(cs, 0)[i] == w[i]);
                let k = choose|k: int| 0 <= k < cs.drop_last().len() && cs.drop_last()[k] == w[i];
                assert(cs[k] == w[i]);
            } else {
                assert(with_priority(cs, 0)[i] == cs[cs.len() - 1]);
            }
        }
        assert forall|i: int| 0 <= i < cs.len() && cs[i] is Type implies with_priority(cs, 0).contains(#[trigger] cs[i]) by {
            if i < cs.len() - 1 {
                assert(cs.drop_last()[i] == cs[i]);
                let k = choose|k: int| 0 <= k < w.len() && w[k] == cs[i];
                if priority(cs.last()) == 0 {
                    assert(with_priority(cs, 0)[k] == cs[i]);
                } else {
                    assert(with_priority(cs, 0)[k] == cs[i]);
                }
            } else {
                assert(with_priority(cs, 0)[with_priority(cs, 0).len() - 1] == cs[i]);
            }
        }
    }
}

/// Where the first `n` conditions are `Type` conditions and one of them
/// rejects the value, trying conditions from `i` fails with a `Type`
/// condition.
proof fn lemma_type_prefix_fails(reg: Registry, cs: Seq<CondV>, v: JsonV, fuel: nat, n: int, t: int, i: int)
    requires
        0 <= i <= t < n <= cs.len(),
        forall|k: int| 0 <= k < n ==> #[trigger] cs[k] is Type,
        !holds(cs[t], v),
    ensures
        check_conds(reg, cs, v, fuel, i) matches Err(ValidationErrorV::ConditionFailed(c)) && c is Type
            && exists|k: int| 0 <= k < n && cs[k] == c,
    decreases t - i,
{
    let c = cs[i];
    assert(c is Type);
    assert(check_cond(reg, c, v, fuel) == crate::validate::verdict(holds(c, v), c));
    if holds(c, v) {
        lemma_type_prefix_fails(reg, cs, v, fuel, n, t, i + 1);
    } else {
        assert(cs[i] == c);
    }
}

/// A `Type` condition among those that the members compile to comes from a
/// member with key `type`.
proof fn lemma_member_types(id: Seq<char>, m: Seq<(Seq<char>, JsonV)>, i: int, c: CondV)
    requires
        0 <= i,
        compile_members(id, m, i) is Ok,
        compile_members(id, m, i)->Ok_0.0.contains(c),
        c is Type,
    ensures
        exists|x: int|
            i <= x < m.len() && #[trigger] m[x].0 == "type"@ && (compile_keyword(id, m[x].0, m[x].1) matches Ok(
                (Some(y), _),
            ) && y == c),
    decreases m.len() - i,
{
    if i >= m.len() {
        assert(compile_members(id, m, i)->Ok_0.0.len() == 0);
    } else {
        let (oc, _) = compile_keyword(id, m[i].0, m[i].1)->Ok_0;
        let (rest, _) = compile_members(id, m, i + 1)->Ok_0;
        let all = compile_members(id, m, i)->Ok_0.0;
        assert(all == opt_seq(oc) + rest);
        let k = choose|k: int| 0 <= k < all.len() && all[k] == c;
        if k < opt_seq(oc).len() {
            assert(oc == Some(c));
            assert(m[i].0 == "type"@);
        } else {
            assert(rest[k - opt_seq(oc).len()] == c);
            lemma_member_types(id, m, i + 1, c);
        }
    }
}

/// The condition that a member's keyword gives is among those that the
/// members compile to.
proof fn lemma_member_condition(id: Seq<char>, m: Seq<(Seq<char>, JsonV)>, i: int, ix: int, c: CondV)
    requires
        0 <= i <= ix < m.len(),
        compile_members(id, m, i) is Ok,
        compile_keyword(id, m[ix].0, m[ix].1) matches Ok((Some(x), _)) && x == c,
    ensures
        compile_members(id, m, i)->Ok_0.0.contains(c),
    decreases ix - i,
{
    let (oc, _) = compile_keyword(id, m[i].0, m[i].1)->Ok_0;
    let (rest, _) = compile_members(id, m, i + 1)->Ok_0;
    let all = compile_members(id, m, i)->Ok_0.0;
    assert(all == opt_seq(oc) + rest);
    if i == ix {
        assert(all[0] == c);
    } else {
        lemma_member_condition(id, m, i + 1, ix, c);
        let k = choose|k: int| 0 <= k < rest.len() && rest[k] == c;
        assert(all[opt_seq(oc).len() + k] == c);
    }
}

/// A value of none of the types that an object schema's `type` keyword
/// names fails with a `Type` condition, never with a later one such as
/// `Properties`: `Type` conditions have the lowest priority and are tried
/// first. This holds in any registry the schema is compiled into.
pub proof fn lemma_type_fails_first(
    reg: Registry,
    uri: Seq<char>,
    m: Seq<(Seq<char>, JsonV)>,
    root: bool,
    v: JsonV,
    fuel: nat,
)
    requires
        fuel > 0,
        compile_object(uri, m, root) is Ok,
        find_key(m, "$ref"@, 0) is None,
        find_key(m, "type"@, 0) matches Some(ix) && compile_keyword(
            compile_object(uri, m, root)->Ok_0.0,
            "type"@,
            m[ix].1,
        ) matches Ok((Some(CondV::Type(ts)), _)) && !some_type(ts, v),
    ensures
        ({
            let (u, es) = compile_object(uri, m, root)->Ok_0;
            check_uri(put_all(reg, es), u, v, fuel) matches Err(ValidationErrorV::ConditionFailed(c))
                && c is Type
        }),
{
    let (u, es) = compile_object(uri, m, root)->Ok_0;
    let ix = find_key(m, "type"@, 0)->0;
    crate::parse::lemma_find_key(m, "type"@, 0);
    let tc = compile_keyword(u, "type"@, m[ix].1)->Ok_0.0->0;
    let id = crate::parse::schema_id(m, uri)->Ok_0;
    assert(u == id);
    let ic = crate::parse::items_keyword(id, m)->Ok_0.0;
    let pc = crate::parse::properties_keyword(id, m)->Ok_0.0;
    let rc = compile_members(id, m, 0)->Ok_0.0;
    lemma_member_condition(id, m, 0, ix, tc);
    let cs = opt_seq(ic) + opt_seq(pc) + rc;
    let k = choose|k: int| 0 <= k < rc.len() && rc[k] == tc;
    assert(cs[opt_seq(ic).len() + opt_seq(pc).len() + k] == tc);
    lemma_with_priority_zero(cs);
    let zero = with_priority(cs, 0);
    let t = choose|t: int| 0 <= t < zero.len() && zero[t] == tc;
    let sorted = by_priority(cs);
    assert forall|q: int| 0 <= q < zero.len() implies #[trigger] sorted[q] is Type by {
        assert(sorted[q] == zero[q]);
    }
    assert(sorted[t] == tc);
    assert(!holds(tc, v));
    lemma_type_prefix_fails(put_all(reg, es), sorted, v, (fuel - 1) as nat, zero.len() as int, t, 0);
    assert(es.last().1 == NodeV {
        description: crate::parse::string_keyword(m, "description"@)->Ok_0,
        title: crate::parse::string_keyword(m, "title"@)->Ok_0,
        validator: ValidatorV::Conditions(sorted),
    });
    assert(put_all(reg, es) == put_all(reg, es.drop_last()).insert(es.last().0, es.last().1));
}

/// Where an object schema has a single `type` member, a value of none of
/// the types it names fails with exactly that `Type` condition: it is the
/// only condition of the lowest priority, so it is tried first.
pub proof fn lemma_type_fails_first_exactly(
    reg: Registry,
    uri: Seq<char>,
    m: Seq<(Seq<char>, JsonV)>,
    root: bool,
    v: JsonV,
    fuel: nat,
)
    requires
        fuel > 0,
        compile_object(uri, m, root) is Ok,
        find_key(m, "$ref"@, 0) is None,
        find_key(m, "type"@, 0) matches Some(ix) && compile_keyword(
            compile_object(uri, m, root)->Ok_0.0,
            "type"@,
            m[ix].1,
        ) matches Ok((Some(CondV::Type(ts)), _)) && !some_type(ts, v),
        forall|x: int, y: int|
            0 <= x < m.len() && 0 <= y < m.len() && #[trigger] m[x].0 == "type"@ && #[trigger] m[y].0
                == "type"@ ==> x == y,
    ensures
        ({
            let (u, es) = compile_object(uri, m, root)->Ok_0;
            let ix = find_key(m, "type"@, 0)->0;
            check_uri(put_all(reg, es), u, v, fuel) == Err::<(), ValidationErrorV>(
                ValidationErrorV::ConditionFailed(compile_keyword(u, "type"@, m[ix].1)->Ok_0.0->0),
            )
        }),
{
    let (u, es) = compile_object(uri, m, root)->Ok_0;
    let ix = find_key(m, "type"@, 0)->0;
    crate::parse::lemma_find_key(m, "type"@, 0);
    let tc = compile_keyword(u, "type"@, m[ix].1)->Ok_0.0->0;
    let id = crate::parse::schema_id(m, uri)->Ok_0;
    let ic = crate::parse::items_keyword(id, m)->Ok_0.0;
    let pc = crate::parse::properties_keyword(id, m)->Ok_0.0;
    let rc = compile_members(id, m, 0)->Ok_0.0;
    lemma_member_condition(id, m, 0, ix, tc);
    let cs = opt_seq(ic) + opt_seq(pc) + rc;
    let k = choose|k: int| 0 <= k < rc.len() && rc[k] == tc;
    assert(cs[opt_seq(ic).len() + opt_seq(pc).len() + k] == tc);
    lemma_with_priority_zero(cs);
    let zero = with_priority(cs, 0);
    let t = choose|t: int| 0 <= t < zero.len() && zero[t] == tc;
    let sorted = by_priority(cs);
    assert forall|q: int| 0 <= q < zero.len() implies #[trigger] sorted[q] is Type by {
        assert(sorted[q] == zero[q]);
    }
    assert(sorted[t] == tc);
    lemma_type_prefix_fails(put_all(reg, es), sorted, v, (fuel - 1) as nat, zero.len() as int, t, 0);
    let c = check_conds(put_all(reg, es), sorted, v, (fuel - 1) as nat, 0)->Err_0->ConditionFailed_0;
    let q = choose|q: int| 0 <= q < zero.len() && sorted[q] == c;
    assert(sorted[q] == zero[q]);
    assert(cs.contains(c));
    let p = choose|p: int| 0 <= p < cs.len() && cs[p] == c;
    if p < opt_seq(ic).len() + opt_seq(pc).len() {
        if p < opt_seq(ic).len() {
            assert(ic == Some(c));
        } else {
            assert(pc == Some(c));
        }
        assert(false);
    } else {
        assert(rc[p - opt_seq(ic).len() - opt_seq(pc).len()] == c);
        assert(rc.contains(c));
        lemma_member_types(id, m, 0, c);
    }
    assert(put_all(reg, es) == put_all(reg, es.drop_last()).insert(es.last().0, es.last().1));
}

} // verus!
