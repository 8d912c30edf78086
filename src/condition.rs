use vstd::prelude::*;

use crate::json::{str_equal, Json, JsonV};
use crate::number::Number;
use crate::pattern::RegexWrapper;

verus! {

/// The type of a JSON value. A value may have more than one type: `4` is
/// both a `Number` and an `Integer`.
#[derive(Clone, Copy, Debug, PartialEq, Eq, Structural)]
pub enum Type {
    Null,
    Boolean,
    Number,
    Integer,
    String,
    Array,
    Object,
}

/// The type that a `type` keyword names, if any.
pub open spec fn type_named(s: Seq<char>) -> Option<Type> {
    if s == "null"@ {
        Some(Type::Null)
    } else if s == "boolean"@ {
        Some(Type::Boolean)
    } else if s == "number"@ {
        Some(Type::Number)
    } else if s == "integer"@ {
        Some(Type::Integer)
    } else if s == "string"@ {
        Some(Type::String)
    } else if s == "array"@ {
        Some(Type::Array)
    } else if s == "object"@ {
        Some(Type::Object)
    } else {
        None
    }
}

/// Whether the value belongs to the type. Integers are the numbers without
/// a fractional part.
pub open spec fn has_type(t: Type, v: JsonV) -> bool {
    match (t, v) {
        (Type::Null, JsonV::Null) => true,
        (Type::Boolean, JsonV::Bool(_)) => true,
        (Type::Number, JsonV::Number(_)) => true,
        (Type::Integer, JsonV::Number(n)) => n.is_integral(),
        (Type::String, JsonV::String(_)) => true,
        (Type::Array, JsonV::Array(_)) => true,
        (Type::Object, JsonV::Object(_)) => true,
        _ => false,
    }
}

impl Type {
    /// The type that a `type` keyword names, if any.
    pub fn from_string(s: &str) -> (r: Option<Type>)
        ensures
            r == type_named(s@),
    {
        if str_equal(s, "null") {
            Some(Type::Null)
        } else if str_equal(s, "boolean") {
            Some(Type::Boolean)
        } else if str_equal(s, "number") {
            Some(Type::Number)
        } else if str_equal(s, "integer") {
            Some(Type::Integer)
        } else if str_equal(s, "string") {
            Some(Type::String)
        } else if str_equal(s, "array") {
            Some(Type::Array)
        } else if str_equal(s, "object") {
            Some(Type::Object)
        } else {
            None
        }
    }

    /// Whether the value belongs to this type.
    pub fn type_of(&self, v: &Json) -> (r: bool)
        ensures
            r == has_type(*self, v@),
    {
        match (self, v) {
            (Type::Null, Json::Null) => true,
            (Type::Boolean, Json::Bool(_)) => true,
            (Type::Number, Json::Number(_)) => true,
            (Type::Integer, Json::Number(n)) => n.is_integer(),
            (Type::String, Json::String(_)) => true,
            (Type::Array, Json::Array(_)) => true,
            (Type::Object, Json::Object(_)) => true,
            _ => false,
        }
    }
}

/// What the presence of a property demands under `dependencies`.
#[derive(Clone, Debug, PartialEq)]
pub enum Dependency {
    /// These properties must be present too.
    Names(Vec<String>),
    /// The whole object must validate against the schema at this URI.
    Schema(String),
}

/// A single constraint that a schema puts on a value. Nested schemas are
/// held by URI, to be looked up in the [`Context`](crate::Context).
#[derive(Clone, Debug, PartialEq)]
pub enum Condition {
    /// A number must be an integer multiple of this one.
    MultipleOf(Number),
    /// A number must not be greater.
    Maximum(Number),
    /// A number must be less.
    ExclusiveMaximum(Number),
    /// A number must not be less.
    Minimum(Number),
    /// A number must be greater.
    ExclusiveMinimum(Number),
    /// A string must not have more characters.
    MaxLength(u64),
    /// A string must not have fewer characters.
    MinLength(u64),
    /// A string must match the regular expression somewhere.
    Pattern(RegexWrapper),
    /// Element `i` of an array must validate against the positional schema
    /// `i` where there is one, else against the trailing schema, if any.
    Items(Vec<String>, Option<String>),
    /// An array must not have more elements.
    MaxItems(u64),
    /// An array must not have fewer elements.
    MinItems(u64),
    /// When `true`, no two elements of an array may be equal.
    UniqueItems(bool),
    /// Some element of an array must validate against the schema.
    Contains(String),
    /// An object must not have more members.
    MaxProperties(u64),
    /// An object must not have fewer members.
    MinProperties(u64),
    /// An object must have each of these members.
    Required(Vec<String>),
    /// Each member of an object validates against the schema named for its
    /// key and against every schema whose pattern matches its key; a member
    /// that neither names nor patterns cover validates against the
    /// additional schema, if any.
    Properties(Vec<(String, String)>, Vec<(RegexWrapper, String)>, Option<String>),
    /// Where an object has the property, it must meet the dependency.
    Dependencies(Vec<(String, Dependency)>),
    /// Every key of an object, as a string, must validate against the schema.
    PropertyNames(String),
    /// The value must equal one of these.
    Enum(Vec<Json>),
    /// The value must equal this one.
    Const(Json),
    /// The value must belong to one of these types.
    Type(Vec<Type>),
    /// The value must validate against every schema.
    AllOf(Vec<String>),
    /// The value must validate against some schema.
    AnyOf(Vec<String>),
    /// The value must validate against exactly one schema.
    OneOf(Vec<String>),
    /// The value must not validate against the schema.
    Not(String),
}

/// The model of a [`Dependency`].
pub enum DependencyV {
    Names(Seq<Seq<char>>),
    Schema(Seq<char>),
}

/// The model of a [`Condition`]: URIs, names and patterns as character
/// sequences.
pub enum CondV {
    MultipleOf(Number),
    Maximum(Number),
    ExclusiveMaximum(Number),
    Minimum(Number),
    ExclusiveMinimum(Number),
    MaxLength(u64),
    MinLength(u64),
    Pattern(Seq<char>),
    Items(Seq<Seq<char>>, Option<Seq<char>>),
    MaxItems(u64),
    MinItems(u64),
    UniqueItems(bool),
    Contains(Seq<char>),
    MaxProperties(u64),
    MinProperties(u64),
    Required(Seq<Seq<char>>),
    Properties(Seq<(Seq<char>, Seq<char>)>, Seq<(Seq<char>, Seq<char>)>, Option<Seq<char>>),
    Dependencies(Seq<(Seq<char>, DependencyV)>),
    PropertyNames(Seq<char>),
    Enum(Seq<JsonV>),
    Const(JsonV),
    Type(Seq<Type>),
    AllOf(Seq<Seq<char>>),
    AnyOf(Seq<Seq<char>>),
    OneOf(Seq<Seq<char>>),
    Not(Seq<char>),
}

/// The models of a list of strings.
pub open spec fn strs_view(s: Seq<String>) -> Seq<Seq<char>> {
    s.map_values(|x: String| x@)
}

/// The model of an optional string.
pub open spec fn opt_str_view(o: Option<String>) -> Option<Seq<char>> {
    match o {
        Some(s) => Some(s@),
        None => None,
    }
}

/// The models of name and URI pairs.
pub open spec fn pairs_view(s: Seq<(String, String)>) -> Seq<(Seq<char>, Seq<char>)> {
    s.map_values(|p: (String, String)| (p.0@, p.1@))
}

/// The models of pattern and URI pairs: each pattern by its source.
pub open spec fn patterns_view(s: Seq<(RegexWrapper, String)>) -> Seq<(Seq<char>, Seq<char>)> {
    s.map_values(|p: (RegexWrapper, String)| (p.0@, p.1@))
}

/// The models of named dependencies.
pub open spec fn deps_view(s: Seq<(String, Dependency)>) -> Seq<(Seq<char>, DependencyV)> {
    s.map_values(|p: (String, Dependency)| (p.0@, p.1@))
}

/// The models of a list of JSON values.
pub open spec fn jsons_view(s: Seq<Json>) -> Seq<JsonV> {
    s.map_values(|j: Json| j@)
}

impl View for Dependency {
    type V = DependencyV;

    open spec fn view(&self) -> DependencyV {
        match self {
            Dependency::Names(n) => DependencyV::Names(strs_view(n@)),
            Dependency::Schema(s) => DependencyV::Schema(s@),
        }
    }
}

impl View for Condition {
    type V = CondV;

    open spec fn view(&self) -> CondV {
        match self {
            Condition::MultipleOf(n) => CondV::MultipleOf(*n),
            Condition::Maximum(n) => CondV::Maximum(*n),
            Condition::ExclusiveMaximum(n) => CondV::ExclusiveMaximum(*n),
            Condition::Minimum(n) => CondV::Minimum(*n),
            Condition::ExclusiveMinimum(n) => CondV::ExclusiveMinimum(*n),
            Condition::MaxLength(n) => CondV::MaxLength(*n),
            Condition::MinLength(n) => CondV::MinLength(*n),
            Condition::Pattern(p) => CondV::Pattern(p@),
            Condition::Items(p, t) => CondV::Items(strs_view(p@), opt_str_view(*t)),
            Condition::MaxItems(n) => CondV::MaxItems(*n),
            Condition::MinItems(n) => CondV::MinItems(*n),
            Condition::UniqueItems(b) => CondV::UniqueItems(*b),
            Condition::Contains(u) => CondV::Contains(u@),
            Condition::MaxProperties(n) => CondV::MaxProperties(*n),
            Condition::MinProperties(n) => CondV::MinProperties(*n),
            Condition::Required(r) => CondV::Required(strs_view(r@)),
            Condition::Properties(n, p, a) => CondV::Properties(
                pairs_view(n@),
                patterns_view(p@),
                opt_str_view(*a),
            ),
            Condition::Dependencies(d) => CondV::Dependencies(deps_view(d@)),
            Condition::PropertyNames(u) => CondV::PropertyNames(u@),
            Condition::Enum(e) => CondV::Enum(jsons_view(e@)),
            Condition::Const(c) => CondV::Const(c@),
            Condition::Type(t) => CondV::Type(t@),
            Condition::AllOf(u) => CondV::AllOf(strs_view(u@)),
            Condition::AnyOf(u) => CondV::AnyOf(strs_view(u@)),
            Condition::OneOf(u) => CondV::OneOf(strs_view(u@)),
            Condition::Not(u) => CondV::Not(u@),
        }
    }
}

/// How early a condition is tried: cheap checks that rule out many values
/// come first, conditions that validate whole subschemas last. `Type` is 0;
/// direct checks of numbers, lengths, patterns and required names are 10;
/// `Properties` is 20; `AllOf` and `AnyOf` are 100; everything else 1000.
pub open spec fn priority(c: CondV) -> nat {
    match c {
        CondV::Type(_) => 0,
        CondV::MultipleOf(_) | CondV::Maximum(_) | CondV::ExclusiveMaximum(_) | CondV::Minimum(_)
        | CondV::ExclusiveMinimum(_) | CondV::MaxLength(_) | CondV::MinLength(_)
        | CondV::Pattern(_) | CondV::Required(_) => 10,
        CondV::Properties(..) => 20,
        CondV::AllOf(_) | CondV::AnyOf(_) => 100,
        CondV::Items(..) | CondV::MaxItems(_) | CondV::MinItems(_)
        | CondV::UniqueItems(_) | CondV::Contains(_) | CondV::MaxProperties(_)
        | CondV::MinProperties(_) | CondV::Dependencies(_) | CondV::PropertyNames(_)
        | CondV::Enum(_) | CondV::Const(_) | CondV::OneOf(_) | CondV::Not(_) => 1000,
    }
}

/// A copy of a list of strings.
pub fn copy_strings(v: &Vec<String>) -> (r: Vec<String>)
    ensures
        strs_view(r@) == strs_view(v@),
{
    let mut out: Vec<String> = Vec::new();
    let mut i: usize = 0;
    while i < v.len()
        invariant
            i <= v.len(),
            out@.len() == i,
            forall|k: int| 0 <= k < i ==> (#[trigger] out@[k])@ == v@[k]@,
        decreases v.len() - i,
    {
        out.push(v[i].clone());
        i = i + 1;
    }
    assert(strs_view(out@) =~= strs_view(v@));
    out
}

/// A copy of an optional string.
pub fn copy_opt(o: &Option<String>) -> (r: Option<String>)
    ensures
        opt_str_view(r) == opt_str_view(*o),
{
    match o {
        Some(s) => Some(s.clone()),
        None => None,
    }
}

impl Dependency {
    /// A copy of the dependency.
    pub fn copy(&self) -> (r: Dependency)
        ensures
            r@ == self@,
    {
        match self {
            Dependency::Names(n) => Dependency::Names(copy_strings(n)),
            Dependency::Schema(s) => Dependency::Schema(s.clone()),
        }
    }
}

impl Condition {
    /// How early this condition is tried; see [`priority`].
    pub fn priority(&self) -> (r: usize)
        ensures
            r == priority(self@),
    {
        match self {
            Condition::Type(_) => 0,
            Condition::MultipleOf(_) | Condition::Maximum(_) | Condition::ExclusiveMaximum(_)
            | Condition::Minimum(_) | Condition::ExclusiveMinimum(_) | Condition::MaxLength(_)
            | Condition::MinLength(_) | Condition::Pattern(_) | Condition::Required(_) => 10,
            Condition::Properties(..) => 20,
            Condition::AllOf(_) | Condition::AnyOf(_) => 100,
            Condition::Items(..) | Condition::MaxItems(_) | Condition::MinItems(_)
            | Condition::UniqueItems(_) | Condition::Contains(_) | Condition::MaxProperties(_) | Condition::MinProperties(_)
            | Condition::Dependencies(_) | Condition::PropertyNames(_) | Condition::Enum(_)
            | Condition::Const(_) | Condition::OneOf(_) | Condition::Not(_) => 1000,
        }
    }

    /// A copy of the condition.
    pub fn copy(&self) -> (r: Condition)
        ensures
            r@ == self@,
    {
        match self {
            Condition::MultipleOf(n) => Condition::MultipleOf(*n),
            Condition::Maximum(n) => Condition::Maximum(*n),
            Condition::ExclusiveMaximum(n) => Condition::ExclusiveMaximum(*n),
            Condition::Minimum(n) => Condition::Minimum(*n),
            Condition::ExclusiveMinimum(n) => Condition::ExclusiveMinimum(*n),
            Condition::MaxLength(n) => Condition::MaxLength(*n),
            Condition::MinLength(n) => Condition::MinLength(*n),
            Condition::Pattern(p) => Condition::Pattern(p.copy()),
            Condition::Items(p, t) => Condition::Items(copy_strings(p), copy_opt(t)),
            Condition::MaxItems(n) => Condition::MaxItems(*n),
            Condition::MinItems(n) => Condition::MinItems(*n),
            Condition::UniqueItems(b) => Condition::UniqueItems(*b),
            Condition::Contains(u) => Condition::Contains(u.clone()),
            Condition::MaxProperties(n) => Condition::MaxProperties(*n),
            Condition::MinProperties(n) => Condition::MinProperties(*n),
            Condition::Required(r) => Condition::Required(copy_strings(r)),
            Condition::Properties(n, p, a) => {
                let mut names: Vec<(String, String)> = Vec::new();
                let mut i: usize = 0;
                while i < n.len()
                    invariant
                        i <= n.len(),
                        names@.len() == i,
                        forall|k: int|
                            0 <= k < i ==> (#[trigger] names@[k]).0@ == n@[k].0@ && names@[k].1@
                                == n@[k].1@,
                    decreases n.len() - i,
                {
                    names.push((n[i].0.clone(), n[i].1.clone()));
                    i = i + 1;
                }
                let mut pats: Vec<(RegexWrapper, String)> = Vec::new();
                let mut j: usize = 0;
                while j < p.len()
                    invariant
                        j <= p.len(),
                        pats@.len() == j,
                        forall|k: int|
                            0 <= k < j ==> (#[trigger] pats@[k]).0@ == p@[k].0@ && pats@[k].1@
                                == p@[k].1@,
                    decreases p.len() - j,
                {
                    pats.push((p[j].0.copy(), p[j].1.clone()));
                    j = j + 1;
                }
                assert(pairs_view(names@) =~= pairs_view(n@));
                assert(patterns_view(pats@) =~= patterns_view(p@));
                Condition::Properties(names, pats, copy_opt(a))
            },
            Condition::Dependencies(d) => {
                let mut out: Vec<(String, Dependency)> = Vec::new();
                let mut i: usize = 0;
                while i < d.len()
                    invariant
                        i <= d.len(),
                        out@.len() == i,
                        forall|k: int|
                            0 <= k < i ==> (#[trigger] out@[k]).0@ == d@[k].0@ && out@[k].1@
                                == d@[k].1@,
                    decreases d.len() - i,
                {
                    out.push((d[i].0.clone(), d[i].1.copy()));
                    i = i + 1;
                }
                assert(deps_view(out@) =~= deps_view(d@));
                Condition::Dependencies(out)
            },
            Condition::PropertyNames(u) => Condition::PropertyNames(u.clone()),
            Condition::Enum(e) => {
                let mut out: Vec<Json> = Vec::new();
                let mut i: usize = 0;
                while i < e.len()
                    invariant
                        i <= e.len(),
                        out@.len() == i,
                        forall|k: int| 0 <= k < i ==> (#[trigger] out@[k])@ == e@[k]@,
                    decreases e.len() - i,
                {
                    out.push(e[i].copy());
                    i = i + 1;
                }
                assert(jsons_view(out@) =~= jsons_view(e@));
                Condition::Enum(out)
            },
            Condition::Const(c) => Condition::Const(c.copy()),
            Condition::Type(t) => {
                let mut out: Vec<Type> = Vec::new();
                let mut i: usize = 0;
                while i < t.len()
                    invariant
                        i <= t.len(),
                        out@.len() == i,
                        forall|k: int| 0 <= k < i ==> #[trigger] out@[k] == t@[k],
                    decreases t.len() - i,
                {
                    out.push(t[i]);
                    i = i + 1;
                }
                assert(out@ =~= t@);
                Condition::Type(out)
            },
            Condition::AllOf(u) => Condition::AllOf(copy_strings(u)),
            Condition::AnyOf(u) => Condition::AnyOf(copy_strings(u)),
            Condition::OneOf(u) => Condition::OneOf(copy_strings(u)),
            Condition::Not(u) => Condition::Not(u.clone()),
        }
    }
}

} // verus!
