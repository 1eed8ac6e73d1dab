//! What can go wrong: a pattern that the engine refuses, and a key that the
//! capture pattern does not match.

use vstd::prelude::*;

verus! {

/// A configuration that cannot be used.
#[derive(Debug)]
pub enum ConfigError {
    /// The text is not a well-formed pattern; the text is carried along.
    BadPattern(String),
}

impl ConfigError {
    /// The pattern text that was refused.
    pub open spec fn pattern(self) -> Seq<char> {
        match self {
            ConfigError::BadPattern(p) => p@,
        }
    }

    /// A description for the operator.
    pub fn message(&self) -> (s: String)
        ensures
            s@ == "malformed pattern: "@ + self.pattern(),
    {
        match self {
            ConfigError::BadPattern(p) => {
                let mut s = String::from_str("malformed pattern: ");
                s.append(p.as_str());
                s
            },
        }
    }
}

/// Why a key did not resolve to a search pattern.
#[derive(Debug)]
pub enum ResolveError {
    /// The capture pattern does not match the key.
    NoMatch,
    /// The text assembled for the key is not a well-formed pattern.
    BadPattern(String),
}

} // verus!
