use vstd::prelude::*;

verus! {

#[verifier::external_type_specification]
#[verifier::external_body]
pub struct ExRegex(regex::Regex);

#[verifier::external_type_specification]
#[verifier::external_body]
pub struct ExRegexError(regex::Error);

/// Whether `regex::Regex::new` accepts the pattern.
pub uninterp spec fn regex_compiles(pattern: Seq<char>) -> bool;

/// Whether the regular expression `pattern` matches somewhere in `text`.
pub uninterp spec fn regex_finds(pattern: Seq<char>, text: Seq<char>) -> bool;

/// Relies on `<regex::Regex as Clone>::clone`: a copy of the compiled
/// expression, which matches as the original does.
pub assume_specification[ <regex::Regex as Clone>::clone ](re: &regex::Regex) -> regex::Regex;

/// A regular expression, known by its source text.
///
/// A `RegexWrapper` is only built by [`RegexWrapper::compile`], so the compiled
/// expression it holds always comes from its source.
#[derive(Debug)]
pub struct RegexWrapper {
    source: String,
    re: regex::Regex,
}

impl Clone for RegexWrapper {
    /// A copy of the pattern; see [`RegexWrapper::copy`].
    fn clone(&self) -> Self {
        self.copy()
    }
}

impl PartialEq for RegexWrapper {
    /// Patterns are equal where their source texts are.
    fn eq(&self, other: &RegexWrapper) -> bool {
        crate::json::str_equal(self.source.as_str(), other.source.as_str())
    }
}

impl vstd::std_specs::cmp::PartialEqSpecImpl for RegexWrapper {
    open spec fn obeys_eq_spec() -> bool {
        true
    }

    open spec fn eq_spec(&self, other: &RegexWrapper) -> bool {
        self@ == other@
    }
}

impl View for RegexWrapper {
    type V = Seq<char>;

    closed spec fn view(&self) -> Seq<char> {
        self.source@
    }
}

impl RegexWrapper {
    /// Relies on `regex::Regex::new`: compiles the source, or refuses it.
    #[verifier::external_body]
    pub(crate) fn compile(source: &str) -> (r: Result<RegexWrapper, regex::Error>)
        ensures
            r is Ok <==> regex_compiles(source@),
            r is Ok ==> r->Ok_0@ == source@,
    {
        match regex::Regex::new(source) {
            Ok(re) => Ok(RegexWrapper { source: source.to_string(), re }),
            Err(e) => Err(e),
        }
    }

    /// Relies on `regex::Regex::is_match`: whether the expression matches
    /// somewhere in the text.
    #[verifier::external_body]
    pub(crate) fn is_match(&self, text: &str) -> (r: bool)
        ensures
            r == regex_finds(self@, text@),
    {
        self.re.is_match(text)
    }

    /// The source text.
    pub fn as_str(&self) -> (r: &str)
        ensures
            r@ == self@,
    {
        self.source.as_str()
    }

    /// A copy of the pattern.
    pub fn copy(&self) -> (r: RegexWrapper)
        ensures
            r@ == self@,
    {
        RegexWrapper { source: self.source.clone(), re: self.re.clone() }
    }
}

} // verus!
