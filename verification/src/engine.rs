//! The regular-expression engine, as far as the library relies on it.
//!
//! Nothing in this file is proved: every item states what the `regex` crate
//! does, and the rest of the library is verified against these statements.
//! What a compiled pattern does is stated only for patterns compiled with the
//! engine's default options, as `Regex::new` compiles them: only for those is
//! it a matter of the pattern's text alone.

use regex::Regex;
use vstd::prelude::*;

verus! {

/// `regex::Regex`, carried through verified code as an opaque value.
#[verifier::external_type_specification]
#[verifier::external_body]
pub struct ExRegex(regex::Regex);

/// `regex::Error`, the reason why a pattern was refused.
#[verifier::external_type_specification]
#[verifier::external_body]
pub struct ExRegexError(regex::Error);

/// The text a compiled pattern was made from: what `Regex::as_str` returns.
pub uninterp spec fn pattern_text(re: Regex) -> Seq<char>;

/// Whether a compiled pattern was made with the engine's default options, as
/// `Regex::new` makes it.
pub uninterp spec fn default_options(re: Regex) -> bool;

/// Whether `Regex::new` accepts the pattern text.
pub uninterp spec fn compiles(pattern: Seq<char>) -> bool;

/// Whether the pattern matches somewhere in `text`: what `Regex::is_match`
/// returns for the pattern compiled from `pattern`.
pub uninterp spec fn has_match(pattern: Seq<char>, text: Seq<char>) -> bool;

/// The part of `text` that the group called `name` captured in the first match
/// of the pattern, or `None` where there is no match, no group of that name, or
/// the group took no part in the match: `Regex::captures` followed by
/// `Captures::name`.
pub uninterp spec fn captured(pattern: Seq<char>, text: Seq<char>, name: Seq<char>) -> Option<Seq<char>>;

/// `text` with every non-overlapping match of the pattern replaced by the
/// expansion of `replacement`: what `Regex::replace_all` returns.
pub uninterp spec fn replaced(pattern: Seq<char>, text: Seq<char>, replacement: Seq<char>) -> Seq<char>;

/// The view of an optional string.
pub open spec fn text_of(s: Option<String>) -> Option<Seq<char>> {
    match s {
        Some(s) => Some(s@),
        None => None,
    }
}

/// `Regex::new`: succeeds exactly on the pattern texts that compile; the
/// compiled pattern has the default options and remembers its text.
pub assume_specification[ Regex::new ](re: &str) -> (r: Result<Regex, regex::Error>)
    ensures
        r.is_ok() == compiles(re@),
        r matches Ok(compiled) ==> pattern_text(compiled) == re@ && default_options(compiled),
;

/// `Regex::as_str`: the text that the pattern was compiled from.
pub assume_specification<'a>[ Regex::as_str ](re: &'a Regex) -> (s: &'a str)
    ensures
        s@ == pattern_text(*re),
;

/// `Regex::is_match`: with the default options the answer depends on the
/// pattern's text and the haystack alone.
pub assume_specification[ Regex::is_match ](re: &Regex, haystack: &str) -> (b: bool)
    ensures
        default_options(*re) ==> b == has_match(pattern_text(*re), haystack@),
;

/// `Regex::captures` and `Captures::name`: the substring captured by the named
/// group in the first match, copied out.
#[verifier::external_body]
pub(crate) fn capture_named(re: &Regex, text: &str, name: &str) -> (r: Option<String>)
    ensures
        default_options(*re) ==> text_of(r) == captured(pattern_text(*re), text@, name@),
{
    re.captures(text).and_then(|caps| caps.name(name)).map(|m| m.as_str().to_string())
}

/// `Regex::replace_all` with a replacement string, which the engine expands
/// for every match.
#[verifier::external_body]
pub(crate) fn replace_all(re: &Regex, text: &str, replacement: &str) -> (r: String)
    ensures
        default_options(*re) ==> r@ == replaced(pattern_text(*re), text@, replacement@),
{
    re.replace_all(text, replacement).into_owned()
}

} // verus!
