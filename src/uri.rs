use vstd::prelude::*;

use crate::condition::opt_str_view;

verus! {

/// The serialization of `s` parsed as an absolute URL, or `None` where
/// `url::Url::parse` refuses it.
pub uninterp spec fn url_parsed(s: Seq<char>) -> Option<Seq<char>>;

/// The serialization of `reference` resolved against the URL `base`, or
/// `None` where either cannot be parsed.
pub uninterp spec fn url_joined(base: Seq<char>, reference: Seq<char>) -> Option<Seq<char>>;

/// The fragment of the URL `uri` (without `#`), if it parses and has one.
pub uninterp spec fn url_fragment(uri: Seq<char>) -> Option<Seq<char>>;

/// The serialization of the URL `uri` with its fragment replaced, or `None`
/// where `uri` does not parse.
pub uninterp spec fn url_with_fragment(uri: Seq<char>, fragment: Seq<char>) -> Option<Seq<char>>;

/// Relies on `url::Url::parse`: parses an absolute URL, giving its
/// serialization.
#[verifier::external_body]
pub(crate) fn parse_url(s: &str) -> (r: Option<String>)
    ensures
        opt_str_view(r) == url_parsed(s@),
{
    match url::Url::parse(s) {
        Ok(u) => Some(String::from(u)),
        Err(_) => None,
    }
}

/// Relies on `url::Url::join`: resolves a reference against the parsed
/// base URL.
#[verifier::external_body]
pub(crate) fn join_url(base: &str, reference: &str) -> (r: Option<String>)
    ensures
        opt_str_view(r) == url_joined(base@, reference@),
{
    match url::Url::parse(base) {
        Ok(b) => match b.join(reference) {
            Ok(u) => Some(String::from(u)),
            Err(_) => None,
        },
        Err(_) => None,
    }
}

/// Relies on `url::Url::fragment`: the fragment of the parsed URL.
#[verifier::external_body]
pub(crate) fn fragment_of(uri: &str) -> (r: Option<String>)
    ensures
        opt_str_view(r) == url_fragment(uri@),
{
    match url::Url::parse(uri) {
        Ok(u) => match u.fragment() {
            Some(f) => Some(f.to_string()),
            None => None,
        },
        Err(_) => None,
    }
}

/// Relies on `url::Url::set_fragment`: the parsed URL with its fragment
/// replaced.
#[verifier::external_body]
pub(crate) fn with_fragment(uri: &str, fragment: &str) -> (r: Option<String>)
    ensures
        opt_str_view(r) == url_with_fragment(uri@, fragment@),
{
    match url::Url::parse(uri) {
        Ok(mut u) => {
            u.set_fragment(Some(fragment));
            Some(String::from(u))
        },
        Err(_) => None,
    }
}

/// A character of a JSON Pointer reference token in text form (RFC 6901):
/// `~` is written `~0` and `/` is written `~1`.
pub open spec fn escaped_char(c: char) -> Seq<char> {
    if c == '~' {
        seq!['~', '0']
    } else if c == '/' {
        seq!['~', '1']
    } else {
        seq![c]
    }
}

/// A reference token in JSON Pointer text form.
pub open spec fn escaped_token(t: Seq<char>) -> Seq<char>
    decreases t.len(),
{
    if t.len() == 0 {
        Seq::empty()
    } else {
        escaped_token(t.drop_last()) + escaped_char(t.last())
    }
}

/// A JSON Pointer written as text: each reference token as `/` followed by
/// the escaped token.
pub open spec fn pointer_string(tokens: Seq<Seq<char>>) -> Seq<char>
    decreases tokens.len(),
{
    if tokens.len() == 0 {
        Seq::empty()
    } else {
        pointer_string(tokens.drop_last()) + seq!['/'] + escaped_token(tokens.last())
    }
}

/// A JSON Pointer of `json_pointer`, with `String` reference tokens. Verus
/// refuses a declaration of `json_pointer::JsonPointer` itself (its
/// `AsRef` bounds), so the pointer is held in this opaque box.
#[verifier::external_body]
pub struct PointerBox {
    p: json_pointer::JsonPointer<String, Vec<String>>,
}

/// The reference tokens of a pointer.
pub uninterp spec fn pointer_tokens(p: PointerBox) -> Seq<Seq<char>>;

/// The reference tokens that `json_pointer` reads from the text, or `None`
/// where it refuses the text.
pub uninterp spec fn pointer_parsed(text: Seq<char>) -> Option<Seq<Seq<char>>>;

/// Relies on `<JsonPointer as FromStr>::from_str`: reads a pointer from its
/// text (in URI-fragment form where the text starts with `#`).
#[verifier::external_body]
fn parse_pointer(text: &str) -> (r: Option<PointerBox>)
    ensures
        r is Some <==> pointer_parsed(text@) is Some,
        r is Some ==> pointer_tokens(r->0) == pointer_parsed(text@)->0,
{
    match text.parse::<json_pointer::JsonPointer<String, Vec<String>>>() {
        Ok(p) => Some(PointerBox { p }),
        Err(_) => None,
    }
}

/// Relies on `JsonPointer::new`: the pointer with these reference tokens.
#[verifier::external_body]
fn pointer_of(tokens: Vec<String>) -> (r: PointerBox)
    ensures
        pointer_tokens(r) == crate::condition::strs_view(tokens@),
{
    PointerBox { p: json_pointer::JsonPointer::new(tokens) }
}

/// Relies on `JsonPointer::push`: appends a reference token.
#[verifier::external_body]
fn pointer_push(b: &mut PointerBox, token: String)
    ensures
        pointer_tokens(*final(b)) == pointer_tokens(*old(b)).push(token@),
{
    b.p.push(token)
}

/// Relies on `<JsonPointer as Display>::fmt`: each token is written as `/`
/// and the token, with `~` written `~0` and `/` written `~1`.
#[verifier::external_body]
fn pointer_text(b: &PointerBox) -> (r: String)
    ensures
        r@ == pointer_string(pointer_tokens(*b)),
{
    b.p.to_string()
}

/// The reference tokens of the fragment read as a JSON Pointer; no tokens
/// (the whole document) where there is no fragment or it is not a pointer.
pub open spec fn fragment_tokens(f: Option<Seq<char>>) -> Seq<Seq<char>> {
    match f {
        Some(x) => match pointer_parsed(x) {
            Some(ts) => ts,
            None => Seq::empty(),
        },
        None => Seq::empty(),
    }
}

/// The fragment's pointer with one more reference token, as text.
pub open spec fn pushed_fragment(f: Option<Seq<char>>, token: Seq<char>) -> Seq<char> {
    pointer_string(fragment_tokens(f).push(token))
}

/// The URI of the position `token` below the position `uri`.
pub open spec fn pushed_uri(uri: Seq<char>, token: Seq<char>) -> Option<Seq<char>> {
    url_with_fragment(uri, pushed_fragment(url_fragment(uri), token))
}

/// The URI of the position `token` below the position `uri`: the JSON
/// Pointer in the fragment gets one more reference token.
pub fn push_uri(uri: &str, token: &str) -> (r: Option<String>)
    ensures
        opt_str_view(r) == pushed_uri(uri@, token@),
{
    let empty: Vec<String> = Vec::new();
    assert(crate::condition::strs_view(empty@) =~= Seq::<Seq<char>>::empty());
    let mut p = match fragment_of(uri) {
        Some(x) => match parse_pointer(x.as_str()) {
            Some(p) => p,
            None => pointer_of(empty),
        },
        None => pointer_of(empty),
    };
    pointer_push(&mut p, token.to_owned());
    let f = pointer_text(&p);
    with_fragment(uri, f.as_str())
}

} // verus!
