//! The pattern matcher: whether a domain name belongs to a routing rule.
//!
//! A pattern is an exact name, a glob or a regular expression. An exact name
//! matches itself and nothing else. A glob must span the whole name. A
//! regular expression only has to be found somewhere in it.
//!
//! Globs and regular expressions are compiled and run by the `glob` and
//! `regex` crates. What they decide is not restated here: it is named, as a
//! function of the pattern's source and the name, and the contracts of this
//! library are stated over those names.

use crate::errors::{new_error, Error, ErrorKind};
use glob::PatternError as GlobPatternError;
use regex::Error as RegexError;
use vstd::prelude::*;
use vstd::string::StrSliceExecFns;

verus! {

/// `glob::Pattern`, a compiled glob.
#[verifier::external_type_specification]
#[verifier::external_body]
pub struct ExGlobPattern(glob::Pattern);

/// `regex::Regex`, a compiled regular expression.
#[verifier::external_type_specification]
#[verifier::external_body]
pub struct ExRegex(regex::Regex);

/// The source that a compiled glob was made from: what `glob::Pattern::as_str`
/// returns.
pub uninterp spec fn glob_source(pattern: glob::Pattern) -> Seq<char>;

/// Whether `glob::Pattern::new` accepts `source`.
pub uninterp spec fn glob_is_valid(source: Seq<char>) -> bool;

/// Whether the glob compiled from `source` matches the whole of `name`: what
/// `glob::Pattern::matches` returns.
pub uninterp spec fn glob_accepts(source: Seq<char>, name: Seq<char>) -> bool;

/// The source that a regular expression was compiled from: what
/// `regex::Regex::as_str` returns.
pub uninterp spec fn regex_source(regex: regex::Regex) -> Seq<char>;

/// Whether `regex::Regex::new` accepts `source`.
pub uninterp spec fn regex_is_valid(source: Seq<char>) -> bool;

/// Whether a regular expression is as `regex::Regex::new` makes one from its
/// source: compiled with the crate's default options, not with others that a
/// `regex::RegexBuilder` can set.
pub uninterp spec fn regex_is_plain(regex: regex::Regex) -> bool;

/// Whether the regular expression that `regex::Regex::new` compiles from
/// `source` is found somewhere in `haystack`: what `regex::Regex::is_match`
/// returns for it.
pub uninterp spec fn regex_finds(source: Seq<char>, haystack: Seq<char>) -> bool;

/// `glob::Pattern::new`. It either refuses the source or returns a pattern
/// that remembers it; which of the two depends on the source alone.
#[verifier::external_body]
fn compile_glob(source: &str) -> (compiled: Result<glob::Pattern, GlobPatternError>)
    ensures
        compiled is Ok == glob_is_valid(source@),
        compiled matches Ok(pattern) ==> glob_source(pattern) == source@,
{
    glob::Pattern::new(source)
}

/// `glob::Pattern::matches`, with the crate's default match options. The
/// answer depends on the pattern's source and on the name alone.
#[verifier::external_body]
fn glob_matches(pattern: &glob::Pattern, name: &str) -> (found: bool)
    ensures
        found == glob_accepts(glob_source(*pattern), name@),
{
    pattern.matches(name)
}

/// `glob::Pattern::as_str`: the source the pattern was compiled from.
#[verifier::external_body]
fn glob_as_str(pattern: &glob::Pattern) -> (source: &str)
    ensures
        source@ == glob_source(*pattern),
{
    pattern.as_str()
}

/// `regex::Regex::new`. It either refuses the source (bad syntax, or a
/// compiled size over the crate's default limit) or returns a regular
/// expression that remembers it and is compiled with the default options;
/// which of the two depends on the source alone.
#[verifier::external_body]
fn compile_regex(source: &str) -> (compiled: Result<regex::Regex, RegexError>)
    ensures
        compiled is Ok == regex_is_valid(source@),
        compiled matches Ok(regex) ==> regex_source(regex) == source@ && regex_is_plain(regex),
{
    regex::Regex::new(source)
}

/// `regex::Regex::is_match`, for a regular expression that was compiled
/// with the default options. For such a one the answer depends on the source
/// and on the haystack alone; of one that a `regex::RegexBuilder` made with
/// other options nothing is claimed.
#[verifier::external_body]
fn regex_is_match(regex: &regex::Regex, haystack: &str) -> (found: bool)
    requires
        regex_is_plain(*regex),
    ensures
        found == regex_finds(regex_source(*regex), haystack@),
{
    regex.is_match(haystack)
}

/// `regex::Regex::as_str`: the source the regular expression was compiled
/// from.
#[verifier::external_body]
fn regex_as_str(regex: &regex::Regex) -> (source: &str)
    ensures
        source@ == regex_source(*regex),
{
    regex.as_str()
}

/// Equality of string slices: the same characters in the same order.
pub assume_specification[ <str as PartialEq>::eq ](a: &str, b: &str) -> (same: bool)
    ensures
        same == (a@ == b@),
;

/// A pattern as the contracts see it: its kind and its source.
pub enum PatternView {
    Exact(Seq<char>),
    Glob(Seq<char>),
    Regex(Seq<char>),
}

impl PatternView {
    /// Whether the pattern matches `name`. An exact pattern matches the name
    /// that is equal to it character by character: case counts, and so does
    /// a trailing dot.
    pub open spec fn matches(self, name: Seq<char>) -> bool {
        match self {
            PatternView::Exact(domain) => domain == name,
            PatternView::Glob(source) => glob_accepts(source, name),
            PatternView::Regex(source) => regex_finds(source, name),
        }
    }

    /// The pattern's text without the prefix that selects its kind.
    pub open spec fn source(self) -> Seq<char> {
        match self {
            PatternView::Exact(domain) => domain,
            PatternView::Glob(source) => source,
            PatternView::Regex(source) => source,
        }
    }
}

/// A glob as `glob::Pattern::new` compiled it.
#[derive(Debug)]
pub struct GlobMatcher {
    compiled: glob::Pattern,
}

impl View for GlobMatcher {
    type V = Seq<char>;

    /// The source that the glob was compiled from.
    closed spec fn view(&self) -> Seq<char> {
        glob_source(self.compiled)
    }
}

/// A regular expression as `regex::Regex::new` compiled it.
#[derive(Debug)]
pub struct RegexMatcher {
    compiled: regex::Regex,
}

impl RegexMatcher {
    /// The regular expression was compiled with the default options.
    #[verifier::type_invariant]
    closed spec fn plain(&self) -> bool {
        regex_is_plain(self.compiled)
    }
}

impl View for RegexMatcher {
    type V = Seq<char>;

    /// The source that the regular expression was compiled from.
    closed spec fn view(&self) -> Seq<char> {
        regex_source(self.compiled)
    }
}

/// A domain pattern, ready to be matched against.
#[derive(Debug)]
pub enum DomainPattern {
    Exact(String),
    Glob(GlobMatcher),
    Regex(RegexMatcher),
}

impl View for DomainPattern {
    type V = PatternView;

    open spec fn view(&self) -> PatternView {
        match self {
            DomainPattern::Exact(domain) => PatternView::Exact(domain@),
            DomainPattern::Glob(glob) => PatternView::Glob(glob@),
            DomainPattern::Regex(regex) => PatternView::Regex(regex@),
        }
    }
}

/// Whether `text` begins with the two characters `first` and `second`.
pub open spec fn has_prefix(text: Seq<char>, first: char, second: char) -> bool {
    text.len() >= 2 && text[0] == first && text[1] == second
}

/// What a pattern source string stands for. `g:` selects a glob and `r:` a
/// regular expression, each given by the rest of the string; anything else
/// is an exact name. `None` where the glob or the regular expression is
/// refused.
pub open spec fn parsed_pattern(source: Seq<char>) -> Option<PatternView> {
    if has_prefix(source, 'g', ':') {
        if glob_is_valid(source.skip(2)) {
            Some(PatternView::Glob(source.skip(2)))
        } else {
            None
        }
    } else if has_prefix(source, 'r', ':') {
        if regex_is_valid(source.skip(2)) {
            Some(PatternView::Regex(source.skip(2)))
        } else {
            None
        }
    } else {
        Some(PatternView::Exact(source))
    }
}

/// Whether `text` begins with `first` and `second`.
fn starts_with_pair(text: &str, first: char, second: char) -> (found: bool)
    ensures
        found == has_prefix(text@, first, second),
{
    text.unicode_len() >= 2 && text.get_char(0) == first && text.get_char(1) == second
}

/// `text` without its first two characters.
fn after_prefix(text: &str) -> (rest: &str)
    requires
        text@.len() >= 2,
    ensures
        rest@ == text@.skip(2),
{
    text.substring_char(2, text.unicode_len())
}

impl DomainPattern {
    /// Compiles a pattern source string.
    ///
    /// Fails exactly where the glob after `g:` or the regular expression
    /// after `r:` is refused, with the error of the crate that refused it.
    pub fn parse(source: &str) -> (parsed: Result<DomainPattern, Error>)
        ensures
            match parsed {
                Ok(pattern) => parsed_pattern(source@) == Some(pattern@),
                Err(error) => parsed_pattern(source@) is None && (if has_prefix(
                    source@,
                    'g',
                    ':',
                ) {
                    error@ is GlobPattern
                } else {
                    error@ is Regex
                }),
            },
    {
        if starts_with_pair(source, 'g', ':') {
            match compile_glob(after_prefix(source)) {
                Ok(compiled) => Ok(DomainPattern::Glob(GlobMatcher { compiled })),
                Err(error) => Err(new_error(ErrorKind::GlobPattern(error))),
            }
        } else if starts_with_pair(source, 'r', ':') {
            match compile_regex(after_prefix(source)) {
                Ok(compiled) => Ok(DomainPattern::Regex(RegexMatcher { compiled })),
                Err(error) => Err(new_error(ErrorKind::Regex(error))),
            }
        } else {
            Ok(DomainPattern::Exact(source.to_owned()))
        }
    }

    /// Whether the pattern matches `value`.
    pub fn matches(&self, value: &str) -> (found: bool)
        ensures
            found == self@.matches(value@),
    {
        match self {
            DomainPattern::Exact(domain) => domain.as_str().eq(value),
            DomainPattern::Glob(glob) => glob_matches(&glob.compiled, value),
            DomainPattern::Regex(regex) => {
                proof {
                    use_type_invariant(regex);
                }
                regex_is_match(&regex.compiled, value)
            },
        }
    }

    /// The pattern's text without the prefix that selected its kind.
    pub fn source(&self) -> (source: &str)
        ensures
            source@ == self@.source(),
    {
        match self {
            DomainPattern::Exact(domain) => domain.as_str(),
            DomainPattern::Glob(glob) => glob_as_str(&glob.compiled),
            DomainPattern::Regex(regex) => regex_as_str(&regex.compiled),
        }
    }
}

} // verus!
