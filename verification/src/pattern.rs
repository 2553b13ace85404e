//! Regular expressions, as the `regex` crate compiles and runs them.

use vstd::prelude::*;

verus! {

/// `regex::Regex`, a compiled regular expression: an opaque value here.
#[verifier::external_type_specification]
#[verifier::external_body]
pub struct ExRegex(regex::Regex);

/// `regex::Error`, the reason why a regular expression did not compile: an opaque
/// value here.
#[verifier::external_type_specification]
#[verifier::external_body]
pub struct ExRegexError(regex::Error);

/// Whether `regex::Regex::new` accepts `source`.
pub uninterp spec fn regex_compiles(source: Seq<char>) -> bool;

/// Whether the expression that `regex::Regex::new` builds from `source` finds a match
/// anywhere in `text` (`regex::Regex::is_match`).
pub uninterp spec fn regex_is_match(source: Seq<char>, text: Seq<char>) -> bool;

/// A compiled regular expression together with the text it was compiled from.
///
/// The fields are private and `Pattern::new` is the only constructor, so the compiled
/// form always belongs to the source text; the view is that text.
#[derive(Debug)]
pub struct Pattern {
    source: String,
    compiled: regex::Regex,
}

impl View for Pattern {
    type V = Seq<char>;

    closed spec fn view(&self) -> Seq<char> {
        self.source@
    }
}

/// Calls `regex::Regex::new`. Trusted: the call succeeds exactly on the sources for
/// which `regex_compiles` holds.
#[verifier::external_body]
fn compile(source: &str) -> (r: Result<regex::Regex, regex::Error>)
    ensures
        r is Ok <==> regex_compiles(source@),
{
    regex::Regex::new(source)
}

/// Calls `regex::Regex::is_match` on the compiled form of `pattern`. Trusted: the result
/// is `regex_is_match` of the pattern's source and the text. This rests on the compiled
/// form being what `regex::Regex::new` built from that source, which holds of every
/// `Pattern`: see the type.
#[verifier::external_body]
fn is_match(pattern: &Pattern, text: &str) -> (r: bool)
    ensures
        r == regex_is_match(pattern@, text@),
{
    pattern.compiled.is_match(text)
}

/// `Clone::clone` of `regex::Regex`. Nothing is claimed of the copy here: it is only
/// ever stored beside a copy of the source text it was compiled from.
pub assume_specification[ <regex::Regex as Clone>::clone ](re: &regex::Regex) -> regex::Regex;

impl Clone for Pattern {
    fn clone(&self) -> (r: Pattern)
        ensures
            r@ == self@,
    {
        Pattern { source: self.source.clone(), compiled: self.compiled.clone() }
    }
}

impl Pattern {
    /// Compiles `source`; `None` when the `regex` crate rejects it.
    pub fn new(source: &str) -> (r: Option<Pattern>)
        ensures
            r is Some <==> regex_compiles(source@),
            r is Some ==> r.unwrap()@ == source@,
    {
        match compile(source) {
            Ok(compiled) => Some(Pattern { source: source.to_owned(), compiled }),
            Err(_) => None,
        }
    }

    /// The text this pattern was compiled from.
    pub fn as_str(&self) -> (r: &str)
        ensures
            r@ == self@,
    {
        self.source.as_str()
    }

    /// Whether the pattern matches anywhere in `text`.
    pub fn is_match(&self, text: &str) -> (r: bool)
        ensures
            r == regex_is_match(self@, text@),
    {
        is_match(self, text)
    }
}

} // verus!
