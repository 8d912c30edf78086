use json_schema::{Condition, Context, FromValueError, Json, Number, Type, ValidationError};

const BASE: &str = "http://example.com/schema.json#";

fn s(x: &str) -> Json {
    Json::String(x.to_string())
}

fn n(x: i64) -> Json {
    Json::Number(Number::from_i64(x))
}

fn ratio(mag: u64, den: u64) -> Json {
    Json::Number(Number::ratio(false, mag, den).unwrap())
}

fn arr(items: Vec<Json>) -> Json {
    Json::Array(items)
}

fn obj(members: Vec<(&str, Json)>) -> Json {
    Json::Object(members.into_iter().map(|(k, v)| (k.to_string(), v)).collect())
}

fn check(schema: &Json, value: &Json) -> Result<(), ValidationError> {
    let mut ctx = Context::new();
    let handle = ctx.make_schema(BASE, schema).expect("schema compiles");
    handle.validate(value)
}

fn failed_with(r: Result<(), ValidationError>) -> Condition {
    match r {
        Err(ValidationError::ConditionFailed(c)) => c,
        other => panic!("expected a failed condition, got {:?}", other),
    }
}

#[test]
fn true_schema_accepts_everything() {
    let values = vec![Json::Null, Json::Bool(false), n(-3), s(""), arr(vec![]), obj(vec![("a", n(1))])];
    for v in values.iter() {
        assert!(check(&Json::Bool(true), v).is_ok());
    }
}

#[test]
fn false_schema_rejects_everything() {
    let values = vec![Json::Null, Json::Bool(true), n(7), s("x"), arr(vec![n(1)]), obj(vec![])];
    for v in values.iter() {
        match check(&Json::Bool(false), v) {
            Err(ValidationError::NoValuesPass(got)) => assert!(got.equals(v)),
            other => panic!("unexpected {:?}", other),
        }
    }
}

#[test]
fn maximum_applies_to_numbers_only() {
    let schema = obj(vec![("maximum", n(5))]);
    assert!(check(&schema, &s("abc")).is_ok());
    assert!(matches!(failed_with(check(&schema, &n(6))), Condition::Maximum(_)));
    assert!(check(&schema, &n(4)).is_ok());
    assert!(check(&schema, &n(5)).is_ok());
}

#[test]
fn ref_resolves_into_definitions() {
    let schema = obj(vec![
        ("$ref", s("#/definitions/a")),
        ("definitions", obj(vec![("a", obj(vec![("type", s("string"))]))])),
    ]);
    assert!(check(&schema, &s("x")).is_ok());
    assert!(matches!(failed_with(check(&schema, &n(5))), Condition::Type(_)));
}

#[test]
fn ref_resolves_into_definitions_without_fragment() {
    let schema = obj(vec![
        ("$ref", s("#/definitions/a")),
        ("definitions", obj(vec![("a", obj(vec![("type", s("string"))]))])),
    ]);
    let mut ctx = Context::new();
    let handle = ctx.make_schema("http://x/s.json", &schema).unwrap();
    assert!(handle.validate(&s("x")).is_ok());
    assert_eq!(
        handle.validate(&n(5)),
        Err(ValidationError::ConditionFailed(Condition::Type(vec![Type::String])))
    );
    let copy = handle.validate(&n(5)).unwrap_err().clone();
    assert_eq!(copy, ValidationError::ConditionFailed(Condition::Type(vec![Type::String])));
}

#[test]
fn branch_errors_do_not_escape_any_of() {
    let broken = obj(vec![("$ref", s("http://example.com/missing.json#"))]);
    let any = obj(vec![("anyOf", arr(vec![broken]))]);
    assert!(matches!(failed_with(check(&any, &n(1))), Condition::AnyOf(_)));
    let broken = obj(vec![("$ref", s("http://example.com/missing.json#"))]);
    let not = obj(vec![("not", broken)]);
    assert!(check(&not, &n(1)).is_ok());
    let broken = obj(vec![("$ref", s("http://example.com/missing.json#"))]);
    let one = obj(vec![("oneOf", arr(vec![broken, Json::Bool(true)]))]);
    assert!(check(&one, &n(1)).is_ok());
    let broken = obj(vec![("$ref", s("http://example.com/missing.json#"))]);
    let contains = obj(vec![("contains", broken)]);
    assert!(matches!(failed_with(check(&contains, &arr(vec![n(1)]))), Condition::Contains(_)));
}

#[test]
fn all_of_is_a_conjunction() {
    let schema = obj(vec![(
        "allOf",
        arr(vec![obj(vec![("type", s("string"))]), obj(vec![("minLength", n(3))])]),
    )]);
    assert!(check(&schema, &s("abcd")).is_ok());
    assert!(matches!(failed_with(check(&schema, &s("ab"))), Condition::MinLength(3)));
    assert!(matches!(failed_with(check(&schema, &n(5))), Condition::Type(_)));
}

#[test]
fn any_of_is_a_disjunction() {
    let schema = obj(vec![(
        "anyOf",
        arr(vec![obj(vec![("type", s("string"))]), obj(vec![("type", s("number"))])]),
    )]);
    assert!(check(&schema, &n(5)).is_ok());
    assert!(check(&schema, &s("s")).is_ok());
    assert!(matches!(failed_with(check(&schema, &Json::Null)), Condition::AnyOf(_)));
}

#[test]
fn additional_properties_exempts_named_ones() {
    let schema = obj(vec![
        ("properties", obj(vec![("a", obj(vec![("type", s("number"))]))])),
        ("additionalProperties", Json::Bool(false)),
    ]);
    assert!(check(&schema, &obj(vec![("a", n(1))])).is_ok());
    assert!(matches!(
        check(&schema, &obj(vec![("a", n(1)), ("b", n(2))])),
        Err(ValidationError::NoValuesPass(_))
    ));
    assert!(matches!(failed_with(check(&schema, &obj(vec![("a", s("x"))]))), Condition::Type(_)));
}

#[test]
fn pattern_properties_apply_by_match() {
    let schema = obj(vec![
        ("patternProperties", obj(vec![("^x_", obj(vec![("type", s("integer"))]))])),
        ("additionalProperties", obj(vec![("type", s("string"))])),
    ]);
    assert!(check(&schema, &obj(vec![("x_a", n(1)), ("other", s("v"))])).is_ok());
    assert!(matches!(failed_with(check(&schema, &obj(vec![("x_a", s("1"))]))), Condition::Type(_)));
    assert!(matches!(failed_with(check(&schema, &obj(vec![("other", n(1))]))), Condition::Type(_)));
}

#[test]
fn type_fails_before_properties() {
    let schema = obj(vec![
        ("properties", obj(vec![("a", obj(vec![("type", s("number"))]))])),
        ("type", s("object")),
    ]);
    assert!(matches!(failed_with(check(&schema, &n(5))), Condition::Type(_)));
    assert!(matches!(failed_with(check(&schema, &s("x"))), Condition::Type(_)));
}

#[test]
fn integer_type_accepts_whole_numbers_only() {
    let schema = obj(vec![("type", arr(vec![s("integer"), s("null")]))]);
    assert!(check(&schema, &n(3)).is_ok());
    assert!(check(&schema, &ratio(4, 2)).is_ok());
    assert!(check(&schema, &Json::Null).is_ok());
    assert!(check(&schema, &ratio(3, 2)).is_err());
}

#[test]
fn numeric_bounds() {
    let schema = obj(vec![("exclusiveMinimum", n(0)), ("exclusiveMaximum", ratio(5, 2)), ("minimum", n(-10))]);
    assert!(check(&schema, &n(1)).is_ok());
    assert!(check(&schema, &n(2)).is_ok());
    assert!(matches!(failed_with(check(&schema, &n(0))), Condition::ExclusiveMinimum(_)));
    assert!(matches!(failed_with(check(&schema, &ratio(5, 2))), Condition::ExclusiveMaximum(_)));
    assert!(matches!(failed_with(check(&schema, &n(-3))), Condition::ExclusiveMinimum(_)));
}

#[test]
fn multiple_of_with_fractions() {
    let schema = obj(vec![("multipleOf", ratio(1, 2))]);
    assert!(check(&schema, &ratio(3, 2)).is_ok());
    assert!(check(&schema, &n(-4)).is_ok());
    assert!(matches!(failed_with(check(&schema, &ratio(5, 4))), Condition::MultipleOf(_)));
    let whole = obj(vec![("multipleOf", n(3))]);
    assert!(check(&whole, &n(9)).is_ok());
    assert!(check(&whole, &n(10)).is_err());
}

#[test]
fn lengths_count_characters() {
    let schema = obj(vec![("minLength", n(3)), ("maxLength", n(3))]);
    assert!(check(&schema, &s("\u{e9}\u{e9}\u{e9}")).is_ok());
    assert!(matches!(failed_with(check(&schema, &s("ab"))), Condition::MinLength(3)));
    assert!(matches!(failed_with(check(&schema, &s("abcd"))), Condition::MaxLength(3)));
}

#[test]
fn pattern_matches_anywhere() {
    let schema = obj(vec![("pattern", s("b+c"))]);
    assert!(check(&schema, &s("abbcd")).is_ok());
    assert!(matches!(failed_with(check(&schema, &s("acb"))), Condition::Pattern(_)));
    let anchored = obj(vec![("pattern", s("^a+$"))]);
    assert!(check(&anchored, &s("aaa")).is_ok());
    assert!(check(&anchored, &s("aab")).is_err());
}

#[test]
fn items_positional_and_trailing() {
    let schema = obj(vec![
        ("items", arr(vec![obj(vec![("type", s("string"))]), obj(vec![("type", s("number"))])])),
        ("additionalItems", Json::Bool(false)),
    ]);
    assert!(check(&schema, &arr(vec![s("a"), n(1)])).is_ok());
    assert!(check(&schema, &arr(vec![s("a")])).is_ok());
    assert!(matches!(failed_with(check(&schema, &arr(vec![n(1)]))), Condition::Type(_)));
    assert!(matches!(
        check(&schema, &arr(vec![s("a"), n(1), Json::Null])),
        Err(ValidationError::NoValuesPass(_))
    ));
    let single = obj(vec![("items", obj(vec![("type", s("number"))]))]);
    assert!(check(&single, &arr(vec![n(1), n(2)])).is_ok());
    assert!(check(&single, &arr(vec![n(1), s("2")])).is_err());
}

#[test]
fn array_size_uniqueness_and_contains() {
    let schema = obj(vec![
        ("minItems", n(1)),
        ("maxItems", n(3)),
        ("uniqueItems", Json::Bool(true)),
        ("contains", obj(vec![("type", s("string"))])),
    ]);
    assert!(check(&schema, &arr(vec![n(1), s("a")])).is_ok());
    assert!(matches!(failed_with(check(&schema, &arr(vec![]))), Condition::MinItems(1)));
    assert!(matches!(failed_with(check(&schema, &arr(vec![n(1), n(2), n(3), s("a")]))), Condition::MaxItems(3)));
    assert!(matches!(failed_with(check(&schema, &arr(vec![s("a"), s("a")]))), Condition::UniqueItems(true)));
    assert!(matches!(failed_with(check(&schema, &arr(vec![n(1), n(2)]))), Condition::Contains(_)));
}

#[test]
fn object_size_required_and_names() {
    let schema = obj(vec![
        ("required", arr(vec![s("a")])),
        ("maxProperties", n(2)),
        ("minProperties", n(1)),
        ("propertyNames", obj(vec![("maxLength", n(2))])),
    ]);
    assert!(check(&schema, &obj(vec![("a", n(1))])).is_ok());
    assert!(matches!(failed_with(check(&schema, &obj(vec![("b", n(1))]))), Condition::Required(_)));
    assert!(matches!(
        failed_with(check(&schema, &obj(vec![("a", n(1)), ("b", n(1)), ("c", n(1))]))),
        Condition::MaxProperties(2)
    ));
    assert!(matches!(failed_with(check(&schema, &obj(vec![("a", n(1)), ("long", n(1))]))), Condition::MaxLength(2)));
    assert!(check(&schema, &n(3)).is_ok());
}

#[test]
fn dependencies_by_names_and_schema() {
    let schema = obj(vec![(
        "dependencies",
        obj(vec![
            ("card", arr(vec![s("billing")])),
            ("ship", obj(vec![("required", arr(vec![s("address")]))])),
        ]),
    )]);
    assert!(check(&schema, &obj(vec![("card", n(1)), ("billing", n(2))])).is_ok());
    assert!(matches!(failed_with(check(&schema, &obj(vec![("card", n(1))]))), Condition::Dependencies(_)));
    assert!(matches!(failed_with(check(&schema, &obj(vec![("ship", n(1))]))), Condition::Required(_)));
    assert!(check(&schema, &obj(vec![("other", n(1))])).is_ok());
}

#[test]
fn enum_const_one_of_and_not() {
    let e = obj(vec![("enum", arr(vec![n(1), s("a"), arr(vec![Json::Null])]))]);
    assert!(check(&e, &s("a")).is_ok());
    assert!(check(&e, &arr(vec![Json::Null])).is_ok());
    assert!(matches!(failed_with(check(&e, &n(2))), Condition::Enum(_)));
    let c = obj(vec![("const", obj(vec![("k", Json::Bool(true))]))]);
    assert!(check(&c, &obj(vec![("k", Json::Bool(true))])).is_ok());
    assert!(matches!(failed_with(check(&c, &obj(vec![("k", Json::Bool(false))]))), Condition::Const(_)));
    let one = obj(vec![(
        "oneOf",
        arr(vec![obj(vec![("type", s("integer"))]), obj(vec![("minimum", n(2))])]),
    )]);
    assert!(check(&one, &n(1)).is_ok());
    assert!(check(&one, &ratio(5, 2)).is_ok());
    assert!(matches!(failed_with(check(&one, &n(3))), Condition::OneOf(_)));
    let not = obj(vec![("not", obj(vec![("type", s("string"))]))]);
    assert!(check(&not, &n(1)).is_ok());
    assert!(matches!(failed_with(check(&not, &s("x"))), Condition::Not(_)));
}

#[test]
fn objects_compare_as_maps_and_numbers_by_value() {
    let c = obj(vec![("const", obj(vec![("a", n(1)), ("b", n(2))]))]);
    assert!(check(&c, &obj(vec![("b", n(2)), ("a", n(1))])).is_ok());
    assert!(check(&c, &obj(vec![("a", n(1))])).is_err());
    assert!(check(&c, &obj(vec![("a", n(1)), ("b", n(3))])).is_err());
    let e = obj(vec![("enum", arr(vec![n(1)]))]);
    assert!(check(&e, &ratio(2, 2)).is_ok());
    let u = obj(vec![("uniqueItems", Json::Bool(true))]);
    let first = obj(vec![("x", n(1)), ("y", n(2))]);
    let second = obj(vec![("y", n(2)), ("x", n(1))]);
    assert!(matches!(failed_with(check(&u, &arr(vec![first, second]))), Condition::UniqueItems(true)));
    assert!(obj(vec![("a", Json::Null), ("b", s("t"))]).equals(&obj(vec![("b", s("t")), ("a", Json::Null)])));
}

#[test]
fn missing_reference_is_reported() {
    let schema = obj(vec![("$ref", s("other.json#/x"))]);
    match check(&schema, &n(1)) {
        Err(ValidationError::BadReference(u)) => assert_eq!(u, "http://example.com/other.json#/x"),
        other => panic!("unexpected {:?}", other),
    }
}

#[test]
fn reference_cycle_stops_at_the_depth_limit() {
    let schema = obj(vec![("$ref", s("#"))]);
    assert!(matches!(check(&schema, &n(1)), Err(ValidationError::DepthExceeded(_))));
}

#[test]
fn references_across_documents() {
    let mut ctx = Context::new();
    let other = obj(vec![("type", s("boolean"))]);
    let other_uri = ctx.compile("http://example.com/other.json#", &other).unwrap();
    assert_eq!(other_uri, "http://example.com/other.json#");
    let main = obj(vec![("$ref", s("other.json#"))]);
    let root = ctx.compile(BASE, &main).unwrap();
    let handle = ctx.get(&root).unwrap();
    assert!(handle.validate(&Json::Bool(true)).is_ok());
    assert!(handle.validate(&n(1)).is_err());
}

#[test]
fn unknown_keywords_are_ignored() {
    let schema = obj(vec![("frobnicate", n(1)), ("format", s("email")), ("default", n(2))]);
    assert!(check(&schema, &s("not an email")).is_ok());
}

#[test]
fn metaschema_check_runs_before_compiling() {
    let mut ctx = Context::new();
    let meta = obj(vec![("type", arr(vec![s("object"), s("boolean")]))]);
    let meta_uri = ctx.compile("http://example.com/meta#", &meta).unwrap();
    assert!(ctx.compile_checked(&meta_uri, BASE, &obj(vec![])).is_ok());
    match ctx.compile_checked(&meta_uri, "http://example.com/bad#", &n(3)) {
        Err(FromValueError::MetaschemaFailedToValidate(ValidationError::ConditionFailed(Condition::Type(_)))) => {},
        other => panic!("unexpected {:?}", other),
    }
    assert!(ctx.get("http://example.com/bad#").is_none());
}
