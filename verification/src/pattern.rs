//! Compiled patterns. A `Pattern` is always one that the engine compiled from
//! its text with the default options, so what it matches, captures and replaces
//! is a matter of that text alone.

use crate::engine::{
    capture_named, captured, compiles, default_options, has_match, pattern_text, replace_all, replaced, text_of,
};
use crate::error::ConfigError;
use regex::Regex;
use vstd::prelude::*;

verus! {

/// A compiled pattern.
#[derive(Debug)]
pub struct Pattern {
    compiled: Regex,
}

impl Pattern {
    #[verifier::type_invariant]
    spec fn made_by_default(&self) -> bool {
        default_options(self.compiled)
    }

    /// The text that the pattern was compiled from.
    pub closed spec fn text(&self) -> Seq<char> {
        pattern_text(self.compiled)
    }

    /// Compiles a pattern. Fails exactly when the engine refuses the text; the
    /// error then carries the text.
    pub fn new(text: &str) -> (r: Result<Pattern, ConfigError>)
        ensures
            match r {
                Ok(p) => compiles(text@) && p.text() == text@,
                Err(e) => !compiles(text@) && e.pattern() == text@,
            },
    {
        match Regex::new(text) {
            Ok(compiled) => Ok(Pattern { compiled }),
            Err(_) => Err(ConfigError::BadPattern(String::from_str(text))),
        }
    }

    /// The text that the pattern was compiled from.
    pub fn as_str(&self) -> (s: &str)
        ensures
            s@ == self.text(),
    {
        self.compiled.as_str()
    }

    /// Whether the pattern matches somewhere in `text`.
    pub fn is_match(&self, text: &str) -> (b: bool)
        ensures
            b == has_match(self.text(), text@),
    {
        proof {
            use_type_invariant(self);
        }
        self.compiled.is_match(text)
    }

    /// What the group called `name` captured in the first match in `text`.
    pub fn capture(&self, text: &str, name: &str) -> (r: Option<String>)
        ensures
            text_of(r) == captured(self.text(), text@, name@),
    {
        proof {
            use_type_invariant(self);
        }
        capture_named(&self.compiled, text, name)
    }

    /// `text` with every match replaced by the expansion of `replacement`.
    pub fn replace_all(&self, text: &str, replacement: &str) -> (r: String)
        ensures
            r@ == replaced(self.text(), text@, replacement@),
    {
        proof {
            use_type_invariant(self);
        }
        replace_all(&self.compiled, text, replacement)
    }
}

} // verus!
