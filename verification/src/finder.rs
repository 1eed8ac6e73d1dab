//! What every finder does: it resolves a search pattern for a key and picks,
//! in order, the entries of a corpus that the pattern matches.

use crate::error::{ConfigError, ResolveError};
use crate::engine::{compiles, has_match};
use crate::pattern::Pattern;
use crate::rules::{
    all_compile, compile_renames, declared, declares, effective, names_distinct, rule_table, FieldRenames, FieldRules, FieldText,
};
use crate::template::{build_search_regex, resolved_text, resolves};
use vstd::prelude::*;

verus! {

/// The entries of a corpus as text.
pub open spec fn corpus_texts(corpus: Seq<String>) -> Seq<Seq<char>> {
    corpus.map_values(|s: String| s@)
}

/// Positions in a corpus as mathematical integers.
pub open spec fn positions(found: Seq<usize>) -> Seq<int> {
    found.map_values(|i: usize| i as int)
}

/// The positions, among the first `n` entries of the corpus, of the entries
/// that the pattern matches, in the order of the corpus.
pub open spec fn selected(pattern: Seq<char>, corpus: Seq<Seq<char>>, n: int) -> Seq<int>
    decreases n,
{
    if n <= 0 {
        Seq::empty()
    } else if has_match(pattern, corpus[n - 1]) {
        selected(pattern, corpus, n - 1).push(n - 1)
    } else {
        selected(pattern, corpus, n - 1)
    }
}

/// The positions that a search for `key` yields: none where the capture
/// pattern does not match the key, else those of the entries that the
/// resolved pattern matches.
pub open spec fn found_positions(
    pattern: Seq<char>,
    template: Seq<char>,
    table: Seq<FieldText>,
    key: Seq<char>,
    corpus: Seq<Seq<char>>,
) -> Seq<int> {
    if has_match(pattern, key) {
        selected(resolved_text(pattern, template, table, key), corpus, corpus.len() as int)
    } else {
        Seq::empty()
    }
}

/// Whether the outcome of a search is the one that is owed: the positions
/// found whenever the key does not match or resolves to a well-formed pattern,
/// and an error that carries the malformed pattern otherwise.
pub open spec fn search_outcome(
    pattern: Seq<char>,
    template: Seq<char>,
    table: Seq<FieldText>,
    key: Seq<char>,
    corpus: Seq<Seq<char>>,
    r: Result<Vec<usize>, ConfigError>,
) -> bool {
    match r {
        Ok(found) => (has_match(pattern, key) ==> resolves(pattern, template, table, key)) && positions(found@)
            == found_positions(pattern, template, table, key, corpus),
        Err(e) => has_match(pattern, key) && !resolves(pattern, template, table, key) && !compiles(e.pattern()),
    }
}

/// Picks the entries that a compiled pattern matches.
pub fn select_matching(re: &Pattern, corpus: &Vec<String>) -> (found: Vec<usize>)
    ensures
        positions(found@) == selected(re.text(), corpus_texts(corpus@), corpus.len() as int),
{
    let ghost texts = corpus_texts(corpus@);
    let mut found: Vec<usize> = Vec::new();
    let mut i: usize = 0;
    while i < corpus.len()
        invariant
            i <= corpus.len(),
            texts == corpus_texts(corpus@),
            positions(found@) == selected(re.text(), texts, i as int),
        decreases corpus.len() - i,
    {
        assert(texts[i as int] == corpus[i as int]@);
        if re.is_match(corpus[i].as_str()) {
            let ghost before = positions(found@);
            found.push(i);
            assert(positions(found@) =~= before.push(i as int));
        }
        i += 1;
    }
    found
}

/// The selection keeps the order of the corpus and is exactly the filter by
/// the pattern: the positions rise strictly, each lies in the corpus at an
/// entry that the pattern matches, and every such entry's position is there.
pub proof fn lemma_selection_in_order(pattern: Seq<char>, corpus: Seq<Seq<char>>, n: int)
    requires
        0 <= n <= corpus.len(),
    ensures
        forall|a: int, b: int|
            0 <= a < b < selected(pattern, corpus, n).len() ==> selected(pattern, corpus, n)[a] < selected(
                pattern,
                corpus,
                n,
            )[b],
        forall|a: int|
            0 <= a < selected(pattern, corpus, n).len() ==> 0 <= #[trigger] selected(pattern, corpus, n)[a] < n
                && has_match(pattern, corpus[selected(pattern, corpus, n)[a]]),
        forall|i: int| 0 <= i < n && has_match(pattern, #[trigger] corpus[i]) ==> selected(pattern, corpus, n).contains(i),
    decreases n,
{
    if n > 0 {
        lemma_selection_in_order(pattern, corpus, n - 1);
        let shorter = selected(pattern, corpus, n - 1);
        let longer = selected(pattern, corpus, n);
        assert forall|i: int| 0 <= i < n && has_match(pattern, #[trigger] corpus[i]) implies longer.contains(i) by {
            if i < n - 1 {
                let a = choose|a: int| 0 <= a < shorter.len() && shorter[a] == i;
                assert(longer[a] == i);
            } else {
                assert(longer[longer.len() - 1] == i);
            }
        }
    }
}

/// What a search finds follows the order of the corpus: the positions rise
/// strictly, and each lies in the corpus at an entry that the pattern resolved
/// for the key matches.
pub proof fn lemma_found_in_corpus_order(
    pattern: Seq<char>,
    template: Seq<char>,
    table: Seq<FieldText>,
    key: Seq<char>,
    corpus: Seq<Seq<char>>,
)
    ensures
        forall|a: int, b: int|
            0 <= a < b < found_positions(pattern, template, table, key, corpus).len() ==> found_positions(
                pattern,
                template,
                table,
                key,
                corpus,
            )[a] < found_positions(pattern, template, table, key, corpus)[b],
        forall|a: int|
            0 <= a < found_positions(pattern, template, table, key, corpus).len() ==> 0 <= #[trigger] found_positions(
                pattern,
                template,
                table,
                key,
                corpus,
            )[a] < corpus.len() && has_match(
                resolved_text(pattern, template, table, key),
                corpus[found_positions(pattern, template, table, key, corpus)[a]],
            ),
{
    if has_match(pattern, key) {
        lemma_selection_in_order(resolved_text(pattern, template, table, key), corpus, corpus.len() as int);
    }
}

/// A key that the capture pattern does not match finds nothing, in any corpus.
pub proof fn lemma_no_match_finds_nothing(
    pattern: Seq<char>,
    template: Seq<char>,
    table: Seq<FieldText>,
    key: Seq<char>,
    corpus: Seq<Seq<char>>,
)
    requires
        !has_match(pattern, key),
    ensures
        found_positions(pattern, template, table, key, corpus).len() == 0,
        forall|r: Result<Vec<usize>, ConfigError>|
            search_outcome(pattern, template, table, key, corpus, r) ==> r is Ok && r.unwrap().len() == 0,
{
    assert forall|r: Result<Vec<usize>, ConfigError>|
        search_outcome(pattern, template, table, key, corpus, r) implies r is Ok && r.unwrap().len() == 0 by {
        assert(positions(r.unwrap()@).len() == r.unwrap()@.len());
    }
}

/// A capture pattern, a search template and the rewrite rules of the fields:
/// all that is needed to resolve a search pattern for a key.
#[derive(Debug)]
pub struct TemplateResolver {
    parse_pattern: Pattern,
    search_template: String,
    renames: Option<Vec<FieldRules>>,
}

impl TemplateResolver {
    /// No field name stands twice in the rewrite rules.
    #[verifier::type_invariant]
    spec fn rules_named_once(&self) -> bool {
        names_distinct(rule_table(self.renames))
    }

    /// The text of the capture pattern.
    pub closed spec fn capture_pattern(&self) -> Seq<char> {
        self.parse_pattern.text()
    }

    /// The search template.
    pub closed spec fn template(&self) -> Seq<char> {
        self.search_template@
    }

    /// The rewrite rules.
    pub closed spec fn rules(&self) -> Seq<FieldText> {
        rule_table(self.renames)
    }

    /// Whether a capture pattern and the declared rules can be compiled.
    pub open spec fn well_formed(pattern: Seq<char>, renames: Option<Vec<FieldRenames>>) -> bool {
        compiles(pattern) && all_compile(declared(renames))
    }

    /// Whether `refused` is a pattern on account of which the configuration
    /// is turned down: the capture pattern if that is malformed, else a
    /// malformed pattern of one of the rules.
    pub open spec fn refuses(pattern: Seq<char>, renames: Option<Vec<FieldRenames>>, refused: Seq<char>) -> bool {
        !compiles(refused) && if compiles(pattern) {
            declares(declared(renames), refused)
        } else {
            refused == pattern
        }
    }

    /// Compiles a resolver. Fails exactly when the capture pattern or one of
    /// the rules' patterns is malformed; the error carries the capture pattern
    /// if that is malformed, else a malformed pattern of the rules. The rules
    /// of the resolver are those that the declaration stands for: of several
    /// fields declared under one name the first.
    pub fn new(parse_pattern: &str, search_template: String, renames: &Option<Vec<FieldRenames>>) -> (r: Result<
        Self,
        ConfigError,
    >)
        ensures
            match r {
                Ok(resolver) => Self::well_formed(parse_pattern@, *renames) && resolver.capture_pattern()
                    == parse_pattern@ && resolver.template() == search_template@ && resolver.rules() == effective(
                    declared(*renames),
                ),
                Err(e) => !Self::well_formed(parse_pattern@, *renames) && Self::refuses(
                    parse_pattern@,
                    *renames,
                    e.pattern(),
                ),
            },
    {
        let compiled = match Pattern::new(parse_pattern) {
            Ok(compiled) => compiled,
            Err(e) => {
                return Err(e);
            },
        };
        match compile_renames(renames, None) {
            Ok(rules) => {
                assert(rule_table(rules) =~= effective(declared(*renames)));
                Ok(TemplateResolver { parse_pattern: compiled, search_template, renames: rules })
            },
            Err(e) => {
                proof {
                    let fields = declared(*renames);
                    let (i, j) = choose|i: int, j: int|
                        0 <= i < fields.len() && 0 <= j < fields[i].1.len() && #[trigger] fields[i].1[j].0
                            == e.pattern();
                    assert(!compiles(fields[i].1[j].0));
                }
                Err(e)
            },
        }
    }

    /// Builds the search pattern for one key.
    pub fn resolve(&self, key: &str) -> (r: Result<Pattern, ResolveError>)
        ensures
            match r {
                Ok(re) => resolves(self.capture_pattern(), self.template(), self.rules(), key@) && re.text()
                    == resolved_text(self.capture_pattern(), self.template(), self.rules(), key@),
                Err(ResolveError::NoMatch) => !has_match(self.capture_pattern(), key@),
                Err(ResolveError::BadPattern(p)) => has_match(self.capture_pattern(), key@) && !resolves(
                    self.capture_pattern(),
                    self.template(),
                    self.rules(),
                    key@,
                ) && !compiles(p@),
            },
    {
        build_search_regex(&self.parse_pattern, self.search_template.as_str(), &self.renames, key)
    }

    /// Searches a corpus for one key: the positions of the entries that the
    /// resolved pattern matches, in the order of the corpus. A key that the
    /// capture pattern does not match finds nothing.
    pub fn search(&self, key: &str, corpus: &Vec<String>) -> (r: Result<Vec<usize>, ConfigError>)
        ensures
            search_outcome(self.capture_pattern(), self.template(), self.rules(), key@, corpus_texts(corpus@), r),
    {
        match self.resolve(key) {
            Ok(re) => Ok(select_matching(&re, corpus)),
            Err(ResolveError::NoMatch) => {
                let found: Vec<usize> = Vec::new();
                assert(positions(found@) =~= Seq::<int>::empty());
                Ok(found)
            },
            Err(ResolveError::BadPattern(p)) => Err(ConfigError::BadPattern(p)),
        }
    }
}

/// A value that a finder hands back for one match.
pub trait FindResult {
    /// The text that the search pattern matched: a path or a line.
    spec fn matched(&self) -> Seq<char>;

    /// The text that the search pattern matched.
    fn matched_text(&self) -> (s: &str)
        ensures
            s@ == self.matched(),
    ;
}

/// A unit that searches a corpus for the entries that belong to a key.
pub trait Finder {
    /// The text of the capture pattern that takes a key apart.
    spec fn capture_pattern(&self) -> Seq<char>;

    /// The search template.
    spec fn template(&self) -> Seq<char>;

    /// The rewrite rules of the fields.
    spec fn rules(&self) -> Seq<FieldText>;

    /// Searches the canonical texts of a corpus for one key and returns the
    /// positions of the entries found, in the order of the corpus.
    fn find(&self, name: &str, corpus: &Vec<String>) -> (r: Result<Vec<usize>, ConfigError>)
        ensures
            search_outcome(self.capture_pattern(), self.template(), self.rules(), name@, corpus_texts(corpus@), r),
    ;
}

} // verus!
