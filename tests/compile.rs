use json_schema::{Context, FromValueError, Json, Number, Type};

const BASE: &str = "http://example.com/schema.json#";

fn s(x: &str) -> Json {
    Json::String(x.to_string())
}

fn n(x: i64) -> Json {
    Json::Number(Number::from_i64(x))
}

fn arr(items: Vec<Json>) -> Json {
    Json::Array(items)
}

fn obj(members: Vec<(&str, Json)>) -> Json {
    Json::Object(members.into_iter().map(|(k, v)| (k.to_string(), v)).collect())
}

fn compile_err(schema: &Json) -> FromValueError {
    let mut ctx = Context::new();
    match ctx.compile(BASE, schema) {
        Err(e) => e,
        Ok(u) => panic!("compiled to {}", u),
    }
}

#[test]
fn type_names() {
    assert_eq!(Type::from_string("null"), Some(Type::Null));
    assert_eq!(Type::from_string("boolean"), Some(Type::Boolean));
    assert_eq!(Type::from_string("number"), Some(Type::Number));
    assert_eq!(Type::from_string("integer"), Some(Type::Integer));
    assert_eq!(Type::from_string("string"), Some(Type::String));
    assert_eq!(Type::from_string("array"), Some(Type::Array));
    assert_eq!(Type::from_string("object"), Some(Type::Object));
    assert_eq!(Type::from_string("Object"), None);
    assert_eq!(Type::from_string(""), None);
}

#[test]
fn compiling_twice_gives_equal_schemas() {
    let doc = obj(vec![
        ("type", s("object")),
        ("required", arr(vec![s("a")])),
        ("allOf", arr(vec![obj(vec![("minProperties", n(1))])])),
        ("properties", obj(vec![("a", obj(vec![("maximum", n(3))]))])),
    ]);
    let mut first = Context::new();
    let u1 = first.compile(BASE, &doc).unwrap();
    let mut second = Context::new();
    second.compile("http://example.com/unrelated#", &Json::Bool(true)).unwrap();
    let u2 = second.compile(BASE, &doc).unwrap();
    assert_eq!(u1, u2);
    let a = format!("{:?}", first.node(&u1).unwrap());
    let b = format!("{:?}", second.node(&u2).unwrap());
    assert_eq!(a, b);
    let u3 = first.compile(BASE, &doc).unwrap();
    assert_eq!(format!("{:?}", first.node(&u3).unwrap()), a);
}

#[test]
fn conditions_are_sorted_by_priority() {
    let doc = obj(vec![
        ("allOf", arr(vec![Json::Bool(true)])),
        ("properties", obj(vec![])),
        ("uniqueItems", Json::Bool(true)),
        ("maximum", n(3)),
        ("type", s("number")),
    ]);
    let mut ctx = Context::new();
    let u = ctx.compile(BASE, &doc).unwrap();
    match &ctx.node(&u).unwrap().validator {
        json_schema::Validator::Conditions(cs) => {
            let ps: Vec<usize> = cs.iter().map(|c| c.priority()).collect();
            assert_eq!(ps, vec![0, 10, 20, 100, 1000]);
        },
        other => panic!("unexpected {:?}", other),
    }
}

#[test]
fn subschemas_are_stored_under_pointer_uris() {
    let doc = obj(vec![
        ("properties", obj(vec![("a/b", obj(vec![])), ("t~x", Json::Bool(true))])),
        ("anyOf", arr(vec![Json::Bool(true), Json::Bool(false)])),
        ("definitions", obj(vec![("d", obj(vec![]))])),
    ]);
    let mut ctx = Context::new();
    ctx.compile(BASE, &doc).unwrap();
    assert!(ctx.get("http://example.com/schema.json#/properties/a~1b").is_some());
    assert!(ctx.get("http://example.com/schema.json#/properties/t~0x").is_some());
    assert!(ctx.get("http://example.com/schema.json#/anyOf/1").is_some());
    assert!(ctx.get("http://example.com/schema.json#/definitions/d").is_some());
}

#[test]
fn missing_fragment_reads_as_the_root_pointer() {
    let doc = obj(vec![("not", Json::Bool(true))]);
    let mut ctx = Context::new();
    let root = ctx.compile("http://example.com/plain.json", &doc).unwrap();
    assert_eq!(root, "http://example.com/plain.json");
    assert!(ctx.get("http://example.com/plain.json#/not").is_some());
    assert!(ctx.get("http://example.com/plain.json#//not").is_none());
}

#[test]
fn fragment_in_uri_fragment_form_is_decoded() {
    let doc = obj(vec![("not", Json::Bool(true))]);
    let mut ctx = Context::new();
    ctx.compile("http://example.com/h.json##/a%20b", &doc).unwrap();
    assert!(ctx.get("http://example.com/h.json#/a%20b/not").is_some());
}

#[test]
fn id_overrides_the_position() {
    let doc = obj(vec![("items", obj(vec![("$id", s("http://example.com/item.json#")), ("type", s("string"))]))]);
    let mut ctx = Context::new();
    let root = ctx.compile(BASE, &doc).unwrap();
    assert_eq!(root, BASE);
    assert!(ctx.get("http://example.com/item.json#").is_some());
    assert!(ctx.get("http://example.com/schema.json#/items").is_none());
}

#[test]
fn base_uri_is_normalised() {
    let mut ctx = Context::new();
    let root = ctx.compile("HTTP://Example.COM/a/../b.json#", &Json::Bool(true)).unwrap();
    assert_eq!(root, "http://example.com/b.json#");
}

#[test]
fn title_and_description_are_kept() {
    let doc = obj(vec![("title", s("T")), ("description", s("D"))]);
    let mut ctx = Context::new();
    let root = ctx.compile(BASE, &doc).unwrap();
    let node = ctx.node(&root).unwrap();
    assert_eq!(node.title.as_deref(), Some("T"));
    assert_eq!(node.description.as_deref(), Some("D"));
}

#[test]
fn invalid_schema_type() {
    match compile_err(&n(5)) {
        FromValueError::InvalidSchemaType(v) => assert_eq!(v, n(5)),
        other => panic!("unexpected {:?}", other),
    }
    assert!(matches!(
        compile_err(&obj(vec![("not", s("x"))])),
        FromValueError::InvalidSchemaType(_)
    ));
}

#[test]
fn invalid_keyword_type() {
    match compile_err(&obj(vec![("maximum", s("5"))])) {
        FromValueError::InvalidKeywordType(k, v) => {
            assert_eq!(k, "maximum");
            assert_eq!(v, s("5"));
        },
        other => panic!("unexpected {:?}", other),
    }
    match compile_err(&obj(vec![("title", n(1))])) {
        FromValueError::InvalidKeywordType(k, _) => assert_eq!(k, "title"),
        other => panic!("unexpected {:?}", other),
    }
    match compile_err(&obj(vec![("required", arr(vec![n(1)]))])) {
        FromValueError::InvalidKeywordType(k, _) => assert_eq!(k, "required"),
        other => panic!("unexpected {:?}", other),
    }
}

#[test]
fn invalid_keyword_value() {
    match compile_err(&obj(vec![("type", s("text"))])) {
        FromValueError::InvalidKeywordValue(k, v) => {
            assert_eq!(k, "type");
            assert_eq!(v, s("text"));
        },
        other => panic!("unexpected {:?}", other),
    }
    match compile_err(&obj(vec![("minLength", n(-1))])) {
        FromValueError::InvalidKeywordValue(k, _) => assert_eq!(k, "minLength"),
        other => panic!("unexpected {:?}", other),
    }
    match compile_err(&obj(vec![("multipleOf", n(0))])) {
        FromValueError::InvalidKeywordValue(k, _) => assert_eq!(k, "multipleOf"),
        other => panic!("unexpected {:?}", other),
    }
}

#[test]
fn invalid_id() {
    match compile_err(&obj(vec![("$id", s("no scheme here"))])) {
        FromValueError::InvalidId(t) => assert_eq!(t, "no scheme here"),
        other => panic!("unexpected {:?}", other),
    }
    let mut ctx = Context::new();
    assert!(matches!(ctx.compile("relative/path", &Json::Bool(true)), Err(FromValueError::InvalidId(_))));
}

#[test]
fn bad_pattern() {
    match compile_err(&obj(vec![("pattern", s("(unclosed"))])) {
        FromValueError::BadPattern(p) => assert_eq!(p, "(unclosed"),
        other => panic!("unexpected {:?}", other),
    }
    assert!(matches!(
        compile_err(&obj(vec![("patternProperties", obj(vec![("[", Json::Bool(true))]))])),
        FromValueError::BadPattern(_)
    ));
}

#[test]
fn schema_keyword_rules() {
    let ok = obj(vec![("$schema", s("http://json-schema.org/draft-06/schema#"))]);
    let mut ctx = Context::new();
    assert!(ctx.compile(BASE, &ok).is_ok());
    match compile_err(&obj(vec![("$schema", s("http://json-schema.org/draft-04/schema#"))])) {
        FromValueError::UnknownSchemaVersion(v) => assert_eq!(v, "http://json-schema.org/draft-04/schema#"),
        other => panic!("unexpected {:?}", other),
    }
    assert!(matches!(
        compile_err(&obj(vec![("not", ok)])),
        FromValueError::SubschemaUsesSchemaKeyword
    ));
}

#[test]
fn failed_compile_stores_nothing() {
    let doc = obj(vec![
        ("properties", obj(vec![("a", Json::Bool(true))])),
        ("maximum", s("oops")),
    ]);
    let mut ctx = Context::new();
    assert!(ctx.compile(BASE, &doc).is_err());
    assert!(ctx.get(BASE).is_none());
    assert!(ctx.get("http://example.com/schema.json#/properties/a").is_none());
}

#[test]
fn number_comparisons() {
    let half = Number::ratio(false, 1, 2).unwrap();
    let minus_one = Number::from_i64(-1);
    let two = Number::from_u64(2);
    assert!(json_schema::compare(minus_one, half, true));
    assert!(json_schema::compare(half, two, false));
    assert!(!json_schema::compare(two, half, false));
    assert!(json_schema::compare(half, Number::ratio(false, 2, 4).unwrap(), false));
    assert!(!json_schema::compare(half, Number::ratio(false, 2, 4).unwrap(), true));
    assert!(json_schema::multiple_of(Number::from_u64(3), half));
    assert!(!json_schema::multiple_of(Number::ratio(false, 1, 3).unwrap(), half));
    assert!(Number::ratio(false, 1, 0).is_none());
    assert_eq!(Number::from_i64(i64::MIN).mag, 9223372036854775808u64);
}

#[test]
fn doubles_convert_exactly_or_not_at_all() {
    let half = Number::from_f64_bits(1.5f64.to_bits()).unwrap();
    assert_eq!((half.neg, half.mag, half.den), (false, 3, 2));
    let minus_two = Number::from_f64_bits((-2.0f64).to_bits()).unwrap();
    assert_eq!((minus_two.neg, minus_two.mag, minus_two.den), (true, 2, 1));
    let zero = Number::from_f64_bits(0.0f64.to_bits()).unwrap();
    assert_eq!((zero.mag, zero.den), (0, 1));
    let tenth = Number::from_f64_bits(0.1f64.to_bits()).unwrap();
    assert_eq!(tenth.den, 1u64 << 55);
    assert_eq!(tenth.mag as f64 / tenth.den as f64, 0.1);
    let big = Number::from_f64_bits(1024.0f64.to_bits()).unwrap();
    assert_eq!((big.mag, big.den), (1024, 1));
    assert!(Number::from_f64_bits(1e300f64.to_bits()).is_none());
    assert!(Number::from_f64_bits(1e-30f64.to_bits()).is_none());
    assert!(Number::from_f64_bits(f64::NAN.to_bits()).is_none());
    assert!(Number::from_f64_bits(f64::INFINITY.to_bits()).is_none());
}
