use vstd::prelude::*;

use crate::ignore::IgnorePath;
use crate::path::opt_str_view;

verus! {

#[verifier::external_type_specification]
#[verifier::external_body]
pub struct ExRegex(regex::Regex);

#[verifier::external_type_specification]
#[verifier::external_body]
pub struct ExRegexError(regex::Error);

/// Whether `regex` finds a match anywhere in `text`.
pub uninterp spec fn regex_is_match(regex: regex::Regex, text: Seq<char>) -> bool;

/// Whether the regex that `regex::Regex::new` compiles from `pattern`, with
/// its default settings, finds a match anywhere in `text`.
pub uninterp spec fn pattern_is_match(pattern: Seq<char>, text: Seq<char>) -> bool;

/// The pattern text that `regex` was compiled from.
pub uninterp spec fn regex_source(regex: regex::Regex) -> Seq<char>;

/// Whether `pattern` compiles with the default configuration.
pub uninterp spec fn pattern_compiles(pattern: Seq<char>) -> bool;

/// Relies on `regex::Regex::clone`: the copy shares the original's compiled
/// program and its pattern, so it matches the same texts.
pub assume_specification[ <regex::Regex as Clone>::clone ](regex: &regex::Regex) -> (r:
    regex::Regex)
    ensures
        regex_source(r) == regex_source(*regex),
        forall|t: Seq<char>| regex_is_match(r, t) == regex_is_match(*regex, t),
;

/// Relies on `regex::Regex::new`: it fails exactly on the patterns that do not
/// compile, and a regex that it returns keeps its pattern as its source and,
/// being built with the fixed default settings, matches as the pattern does.
#[verifier::external_body]
fn compile(pattern: &str) -> (r: Result<regex::Regex, regex::Error>)
    ensures
        r is Ok <==> pattern_compiles(pattern@),
        r matches Ok(re) ==> regex_source(re) == pattern@,
        r matches Ok(re) ==> forall|t: Seq<char>|
            regex_is_match(re, t) == pattern_is_match(pattern@, t),
{
    regex::Regex::new(pattern)
}

/// Relies on `regex::Regex::is_match`: whether there is a match anywhere in
/// the haystack.
#[verifier::external_body]
fn is_match(regex: &regex::Regex, text: &str) -> (r: bool)
    ensures
        r == regex_is_match(*regex, text@),
{
    regex.is_match(text)
}

/// Relies on `regex::Regex::as_str`: the original pattern of the regex.
#[verifier::external_body]
fn regex_as_str(regex: &regex::Regex) -> (r: &str)
    ensures
        r@ == regex_source(*regex),
{
    regex.as_str()
}

/// A filter that ignores the paths whose text the regular expression matches
/// anywhere. A path that is not valid text is never ignored.
#[derive(Debug)]
pub struct RegexFilter {
    regex: regex::Regex,
}

impl RegexFilter {
    /// The regular expression that this filter tests paths with.
    pub closed spec fn matcher(&self) -> regex::Regex {
        self.regex
    }

    /// The filter's regex matches as the one `regex::Regex::new` compiles
    /// from its source, as every regex compiled from a pattern by this
    /// library does.
    pub open spec fn compiled_from_source(&self) -> bool {
        forall|t: Seq<char>|
            regex_is_match(self.matcher(), t) == pattern_is_match(regex_source(self.matcher()), t)
    }

    /// Compiles `pattern` into a filter. Fails with the engine's error exactly
    /// when the pattern does not compile.
    pub fn new_str(pattern: &str) -> (r: Result<Self, regex::Error>)
        ensures
            r is Ok <==> pattern_compiles(pattern@),
            r matches Ok(f) ==> regex_source(f.matcher()) == pattern@,
            r matches Ok(f) ==> forall|t: Seq<char>|
                regex_is_match(f.matcher(), t) == pattern_is_match(pattern@, t),
            r matches Ok(f) ==> f.compiled_from_source(),
    {
        match compile(pattern) {
            Ok(regex) => Ok(RegexFilter { regex }),
            Err(e) => Err(e),
        }
    }

    /// Creates a filter around an already compiled regular expression.
    pub fn new(regex: regex::Regex) -> (r: Self)
        ensures
            r.matcher() == regex,
    {
        RegexFilter { regex }
    }

    /// The source text of the filter's regular expression.
    pub fn pattern(&self) -> (r: &str)
        ensures
            r@ == regex_source(self.matcher()),
    {
        regex_as_str(&self.regex)
    }

    /// Decides from a path's text form, `None` when the path is not valid
    /// text.
    pub fn ignore_text(&self, text: Option<&str>) -> (r: bool)
        ensures
            r == match opt_str_view(text) {
                Some(t) => regex_is_match(self.matcher(), t),
                None => false,
            },
    {
        match text {
            Some(t) => is_match(&self.regex, t),
            None => false,
        }
    }
}

impl Clone for RegexFilter {
    fn clone(&self) -> (r: Self)
        ensures
            regex_source(r.matcher()) == regex_source(self.matcher()),
            forall|t: Seq<char>| regex_is_match(r.matcher(), t) == regex_is_match(self.matcher(), t),
    {
        RegexFilter { regex: self.regex.clone() }
    }
}

impl IgnorePath for RegexFilter {
    open spec fn ignores(&self, path: Seq<char>) -> bool {
        regex_is_match(self.matcher(), path)
    }

    fn ignore(&self, path: &str) -> (r: bool) {
        self.ignore_text(Some(path))
    }
}

impl core::str::FromStr for RegexFilter {
    type Err = regex::Error;

    /// Compiles a pattern into a filter, as `new_str` does.
    fn from_str(s: &str) -> (r: Result<Self, regex::Error>)
        ensures
            r is Ok <==> pattern_compiles(s@),
            r matches Ok(f) ==> regex_source(f.matcher()) == s@,
            r matches Ok(f) ==> forall|t: Seq<char>|
                regex_is_match(f.matcher(), t) == pattern_is_match(s@, t),
    {
        RegexFilter::new_str(s)
    }
}

} // verus!
