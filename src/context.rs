use vstd::prelude::*;

use crate::condition::{CondV, Condition};

verus! {

/// How a schema node decides.
#[derive(Clone, Debug, PartialEq)]
pub enum Validator {
    /// Every value passes (the `true` schema).
    Anything,
    /// Every condition must hold, tried in this order.
    Conditions(Vec<Condition>),
    /// No value passes (the `false` schema).
    Nothing,
    /// The schema at this URI decides.
    Reference(String),
}

/// The model of a [`Validator`].
pub enum ValidatorV {
    Anything,
    Conditions(Seq<CondV>),
    Nothing,
    Reference(Seq<char>),
}

/// One compiled schema.
#[derive(Clone, Debug, PartialEq)]
pub struct SchemaNode {
    pub description: Option<String>,
    pub title: Option<String>,
    pub validator: Validator,
}

/// The model of a [`SchemaNode`].
pub struct NodeV {
    pub description: Option<Seq<char>>,
    pub title: Option<Seq<char>>,
    pub validator: ValidatorV,
}

/// The models of a list of conditions.
pub open spec fn conds_view(s: Seq<Condition>) -> Seq<CondV> {
    s.map_values(|c: Condition| c@)
}

impl View for Validator {
    type V = ValidatorV;

    open spec fn view(&self) -> ValidatorV {
        match self {
            Validator::Anything => ValidatorV::Anything,
            Validator::Conditions(c) => ValidatorV::Conditions(conds_view(c@)),
            Validator::Nothing => ValidatorV::Nothing,
            Validator::Reference(u) => ValidatorV::Reference(u@),
        }
    }
}

impl View for SchemaNode {
    type V = NodeV;

    open spec fn view(&self) -> NodeV {
        NodeV {
            description: crate::condition::opt_str_view(self.description),
            title: crate::condition::opt_str_view(self.title),
            validator: self.validator@,
        }
    }
}

/// The registry that a list of entries describes: later entries replace
/// earlier ones under the same URI.
pub open spec fn entries_map(s: Seq<(Seq<char>, NodeV)>) -> Map<Seq<char>, NodeV>
    decreases s.len(),
{
    if s.len() == 0 {
        Map::empty()
    } else {
        entries_map(s.drop_last()).insert(s.last().0, s.last().1)
    }
}

/// The models of stored entries.
pub open spec fn stored_view(s: Seq<(String, SchemaNode)>) -> Seq<(Seq<char>, NodeV)> {
    s.map_values(|e: (String, SchemaNode)| (e.0@, e.1@))
}

/// The place where compiled schemas live, each under its URI. Schemas link
/// to one another by URI only.
#[derive(Debug)]
pub struct Context {
    schemas: Vec<(String, SchemaNode)>,
}

/// A compiled schema: a URI in a context.
#[derive(Debug)]
pub struct JsonSchema<'a> {
    pub ctx: &'a Context,
    pub id: String,
}

/// The entry found under a key is the last one with that key.
proof fn lemma_entries_last(s: Seq<(Seq<char>, NodeV)>, k: Seq<char>, j: int)
    requires
        0 <= j < s.len(),
        s[j].0 == k,
        forall|i: int| j < i < s.len() ==> s[i].0 != k,
    ensures
        entries_map(s).contains_key(k),
        entries_map(s)[k] == s[j].1,
    decreases s.len(),
{
    if j < s.len() - 1 {
        lemma_entries_last(s.drop_last(), k, j);
    }
}

/// A key that no entry has is not in the registry.
proof fn lemma_entries_absent(s: Seq<(Seq<char>, NodeV)>, k: Seq<char>)
    requires
        forall|i: int| 0 <= i < s.len() ==> s[i].0 != k,
    ensures
        !entries_map(s).contains_key(k),
    decreases s.len(),
{
    if s.len() > 0 {
        lemma_entries_absent(s.drop_last(), k);
    }
}

/// The registry after storing the entries in order.
pub open spec fn put_all(reg: Map<Seq<char>, NodeV>, es: Seq<(Seq<char>, NodeV)>) -> Map<Seq<char>, NodeV>
    decreases es.len(),
{
    if es.len() == 0 {
        reg
    } else {
        put_all(reg, es.drop_last()).insert(es.last().0, es.last().1)
    }
}

/// Storing more entries updates the registry in their order.
proof fn lemma_entries_concat(s: Seq<(Seq<char>, NodeV)>, t: Seq<(Seq<char>, NodeV)>)
    ensures
        entries_map(s + t) == put_all(entries_map(s), t),
    decreases t.len(),
{
    if t.len() == 0 {
        assert(s + t =~= s);
    } else {
        lemma_entries_concat(s, t.drop_last());
        assert((s + t).drop_last() =~= s + t.drop_last());
        assert((s + t).last() == t.last());
    }
}

impl View for Context {
    type V = Map<Seq<char>, NodeV>;

    closed spec fn view(&self) -> Map<Seq<char>, NodeV> {
        entries_map(stored_view(self.schemas@))
    }
}

impl Context {
    /// An empty context.
    pub fn new() -> (r: Context)
        ensures
            r@ == Map::<Seq<char>, NodeV>::empty(),
    {
        let r = Context { schemas: Vec::new() };
        assert(stored_view(r.schemas@) =~= Seq::empty());
        r
    }

    /// The schema stored under the URI, if any.
    pub fn node(&self, uri: &str) -> (r: Option<&SchemaNode>)
        ensures
            r is Some <==> self@.contains_key(uri@),
            r is Some ==> r->0@ == self@[uri@],
    {
        let ghost s = stored_view(self.schemas@);
        let mut i: usize = self.schemas.len();
        while i > 0
            invariant
                i <= self.schemas@.len(),
                s == stored_view(self.schemas@),
                forall|k: int| i <= k < self.schemas@.len() ==> #[trigger] s[k].0 != uri@,
            decreases i,
        {
            if crate::json::str_equal(self.schemas[i - 1].0.as_str(), uri) {
                proof {
                    lemma_entries_last(s, uri@, i - 1);
                }
                return Some(&self.schemas[i - 1].1);
            }
            i = i - 1;
        }
        proof {
            lemma_entries_absent(s, uri@);
        }
        None
    }

    /// Stores a schema under the URI, replacing what was there.
    pub fn put(&mut self, uri: String, node: SchemaNode)
        ensures
            final(self)@ == old(self)@.insert(uri@, node@),
    {
        let ghost u = uri@;
        let ghost n = node@;
        self.schemas.push((uri, node));
        proof {
            let s = stored_view(final(self).schemas@);
            assert(s.drop_last() =~= stored_view(old(self).schemas@));
            assert(s.last() == (u, n));
        }
    }

    /// Stores the schemas in order, each replacing what was under its URI.
    pub fn put_all(&mut self, es: Vec<(String, SchemaNode)>)
        ensures
            final(self)@ == put_all(old(self)@, stored_view(es@)),
    {
        let ghost before = self.schemas@;
        let mut es = es;
        let ghost added = es@;
        self.schemas.append(&mut es);
        proof {
            assert(stored_view(self.schemas@) =~= stored_view(before) + stored_view(added));
            lemma_entries_concat(stored_view(before), stored_view(added));
        }
    }

    /// The schema under the URI, as a handle that can validate values.
    pub fn get<'a>(&'a self, uri: &str) -> (r: Option<JsonSchema<'a>>)
        ensures
            r is Some <==> self@.contains_key(uri@),
            r is Some ==> r->0.ctx == self && r->0.id@ == uri@,
    {
        match self.node(uri) {
            Some(_) => Some(JsonSchema { ctx: self, id: uri.to_string() }),
            None => None,
        }
    }
}

} // verus!
