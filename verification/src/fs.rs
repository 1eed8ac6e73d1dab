//! The finder of filesystem entries: the corpus is the list of paths under the
//! configured roots, and a match is reported with its path, its file name and
//! whether it is a regular file.

use crate::cache::EntriesCache;
use crate::error::ConfigError;
use crate::finder::{
    corpus_texts, found_positions, lemma_selection_in_order, positions, FindResult, Finder, TemplateResolver,
};
use crate::engine::{compiles, has_match};
use crate::rules::{declared, effective, FieldRenames, FieldText};
use crate::template::{resolved_text, resolves};
use vstd::prelude::*;

verus! {

/// How a root is walked; what is left open is up to the walker.
#[derive(Clone, Copy, Debug)]
pub struct WalkdirOptions {
    pub follow_links: Option<bool>,
    pub max_depth: Option<usize>,
}

/// A root directory with its traversal options.
#[derive(Debug)]
pub struct Entry {
    pub root: String,
    pub options: Option<WalkdirOptions>,
}

/// A root as it is configured: a bare path, or a path with options.
#[derive(Debug)]
pub enum EntryConfig {
    Root(String),
    Configured(Entry),
}

/// The configuration of a finder of filesystem entries.
#[derive(Debug)]
pub struct FindEntryConfig {
    pub roots: Vec<EntryConfig>,
    pub pattern: String,
    pub template: String,
    pub renames: Option<Vec<FieldRenames>>,
}

/// The same configuration, under the name that the finder's builder uses.
pub type EntryFinderConfig = FindEntryConfig;

/// A match of a filesystem finder.
#[derive(Debug)]
pub struct FSFindResult {
    pub path: String,
    pub filename: String,
    pub is_file: bool,
}

impl FindResult for FSFindResult {
    open spec fn matched(&self) -> Seq<char> {
        self.path@
    }

    fn matched_text(&self) -> (s: &str) {
        self.path.as_str()
    }
}

/// The root that a configured entry stands for: a bare path has no options.
pub open spec fn root_of(config: EntryConfig) -> (Seq<char>, Option<WalkdirOptions>) {
    match config {
        EntryConfig::Root(root) => (root@, None),
        EntryConfig::Configured(entry) => (entry.root@, entry.options),
    }
}

/// The roots that a list of configured entries stands for.
pub open spec fn roots_of(configs: Seq<EntryConfig>) -> Seq<(Seq<char>, Option<WalkdirOptions>)> {
    configs.map_values(|c: EntryConfig| root_of(c))
}

/// Roots as plain values.
pub open spec fn root_views(roots: Seq<Entry>) -> Seq<(Seq<char>, Option<WalkdirOptions>)> {
    roots.map_values(|e: Entry| (e.root@, e.options))
}

/// The entries of a corpus at the given positions, in the order of the
/// positions.
pub open spec fn paths_at(entries: Seq<Seq<char>>, found: Seq<int>) -> Seq<Seq<char>> {
    found.map_values(|p: int| entries[p])
}

/// The final component of a path, as `std::path::Path::file_name` gives it,
/// with anything that is not Unicode replaced. Nothing is claimed of it: what
/// counts as a separator depends on the platform.
#[verifier::external_body]
fn base_name(path: &str) -> (r: Option<String>) {
    std::path::Path::new(path).file_name().map(|name| name.to_string_lossy().into_owned())
}

/// Puts a result together from a matching path, its file name if it has one,
/// and whether it is a regular file. A path without a file name gives no
/// result.
pub fn entry_result(path: &str, filename: Option<String>, is_file: bool) -> (r: Option<FSFindResult>)
    ensures
        match r {
            Some(found) => filename is Some && found.path@ == path@ && found.filename@ == filename.unwrap()@
                && found.is_file == is_file,
            None => filename is None,
        },
{
    match filename {
        Some(filename) => Some(FSFindResult { path: String::from_str(path), filename, is_file }),
        None => None,
    }
}

/// Describes a matching path, given whether it is a regular file. The file
/// name is the path's final component; a path that has none gives no result.
pub fn describe_entry(path: &str, is_file: bool) -> (r: Option<FSFindResult>)
    ensures
        r matches Some(found) ==> found.path@ == path@ && found.is_file == is_file,
{
    entry_result(path, base_name(path), is_file)
}

/// A finder of filesystem entries.
#[derive(Debug)]
pub struct FSEntryFinder {
    roots: Vec<Entry>,
    resolver: TemplateResolver,
}

impl FSEntryFinder {
    /// The roots to walk, in order.
    pub closed spec fn root_list(&self) -> Seq<(Seq<char>, Option<WalkdirOptions>)> {
        root_views(self.roots@)
    }

    /// The resolver of search patterns.
    pub closed spec fn resolver(&self) -> TemplateResolver {
        self.resolver
    }

    /// Whether the finder is the one that the given configuration describes.
    pub open spec fn built_from(
        &self,
        roots: Seq<EntryConfig>,
        pattern: Seq<char>,
        template: Seq<char>,
        renames: Option<Vec<FieldRenames>>,
    ) -> bool {
        &&& self.root_list() == roots_of(roots)
        &&& self.resolver().capture_pattern() == pattern
        &&& self.resolver().template() == template
        &&& self.resolver().rules() == effective(declared(renames))
    }

    /// Builds a finder: every bare root becomes a root without options, the
    /// capture pattern and the rules are compiled. Fails exactly when one of
    /// the patterns is malformed.
    pub fn new(
        roots: Vec<EntryConfig>,
        parse_pattern: String,
        search_template: String,
        renames: Option<Vec<FieldRenames>>,
    ) -> (r: Result<Self, ConfigError>)
        ensures
            match r {
                Ok(finder) => TemplateResolver::well_formed(parse_pattern@, renames) && finder.built_from(
                    roots@,
                    parse_pattern@,
                    search_template@,
                    renames,
                ),
                Err(e) => !TemplateResolver::well_formed(parse_pattern@, renames) && TemplateResolver::refuses(
                    parse_pattern@,
                    renames,
                    e.pattern(),
                ),
            },
    {
        Self::build(&roots, parse_pattern.as_str(), search_template.as_str(), &renames)
    }

    /// Builds a finder as `new` does, from a configuration that stays with the
    /// caller.
    pub fn build(
        roots: &Vec<EntryConfig>,
        parse_pattern: &str,
        search_template: &str,
        renames: &Option<Vec<FieldRenames>>,
    ) -> (r: Result<Self, ConfigError>)
        ensures
            match r {
                Ok(finder) => TemplateResolver::well_formed(parse_pattern@, *renames) && finder.built_from(
                    roots@,
                    parse_pattern@,
                    search_template@,
                    *renames,
                ),
                Err(e) => !TemplateResolver::well_formed(parse_pattern@, *renames) && TemplateResolver::refuses(
                    parse_pattern@,
                    *renames,
                    e.pattern(),
                ),
            },
    {
        let mut entries: Vec<Entry> = Vec::new();
        let mut i: usize = 0;
        while i < roots.len()
            invariant
                i <= roots.len(),
                entries.len() == i,
                forall|k: int| 0 <= k < i ==> (#[trigger] entries[k].root@, entries[k].options) == root_of(roots[k]),
            decreases roots.len() - i,
        {
            let entry = match &roots[i] {
                EntryConfig::Root(root) => Entry { root: root.clone(), options: None },
                EntryConfig::Configured(entry) => Entry { root: entry.root.clone(), options: entry.options },
            };
            entries.push(entry);
            i += 1;
        }
        assert(root_views(entries@) =~= roots_of(roots@));
        match TemplateResolver::new(parse_pattern, String::from_str(search_template), renames) {
            Ok(resolver) => Ok(FSEntryFinder { roots: entries, resolver }),
            Err(e) => Err(e),
        }
    }

    /// The roots to walk, in order.
    pub fn roots(&self) -> (r: &Vec<Entry>)
        ensures
            root_views(r@) == self.root_list(),
    {
        &self.roots
    }

    /// Searches an enumeration of paths for one key: the paths that the
    /// resolved pattern matches, in the order of the enumeration. A key that
    /// the capture pattern does not match finds nothing.
    pub fn find_paths(&self, name: &str, entries: &Vec<String>) -> (r: Result<Vec<String>, ConfigError>)
        ensures
            ({
                let p = self.resolver().capture_pattern();
                let t = self.resolver().template();
                let table = self.resolver().rules();
                match r {
                    Ok(paths) => (has_match(p, name@) ==> resolves(p, t, table, name@)) && corpus_texts(paths@)
                        == paths_at(
                        corpus_texts(entries@),
                        found_positions(p, t, table, name@, corpus_texts(entries@)),
                    ),
                    Err(e) => has_match(p, name@) && !resolves(p, t, table, name@) && !compiles(e.pattern()),
                }
            }),
    {
        let at = match self.resolver.search(name, entries) {
            Ok(at) => at,
            Err(e) => {
                return Err(e);
            },
        };
        let ghost texts = corpus_texts(entries@);
        let ghost wanted = paths_at(texts, positions(at@));
        proof {
            lemma_selection_in_order(
                resolved_text(
                    self.resolver().capture_pattern(),
                    self.resolver().template(),
                    self.resolver().rules(),
                    name@,
                ),
                texts,
                texts.len() as int,
            );
        }
        let mut paths: Vec<String> = Vec::new();
        let mut k: usize = 0;
        while k < at.len()
            invariant
                k <= at.len(),
                texts == corpus_texts(entries@),
                wanted == paths_at(texts, positions(at@)),
                forall|a: int| 0 <= a < at.len() ==> 0 <= #[trigger] positions(at@)[a] < entries.len(),
                paths.len() == k,
                forall|a: int| 0 <= a < k ==> (#[trigger] paths[a])@ == wanted[a],
            decreases at.len() - k,
        {
            let p = at[k];
            assert(positions(at@)[k as int] == p);
            assert(texts[p as int] == entries[p as int]@);
            paths.push(entries[p].clone());
            k += 1;
        }
        assert(corpus_texts(paths@) =~= wanted);
        Ok(paths)
    }

    /// An empty enumeration cache for this finder, with the standard time to
    /// live.
    pub fn new_cache(&self, now: u64) -> (c: EntriesCache)
        ensures
            c.snapshot() is None,
            c.captured_at() == now,
            c.ttl() == crate::cache::CACHE_TTL_MS,
    {
        EntriesCache::new(now)
    }
}

impl Finder for FSEntryFinder {
    open spec fn capture_pattern(&self) -> Seq<char> {
        self.resolver().capture_pattern()
    }

    open spec fn template(&self) -> Seq<char> {
        self.resolver().template()
    }

    open spec fn rules(&self) -> Seq<FieldText> {
        self.resolver().rules()
    }

    /// Searches an enumeration of paths for one key.
    fn find(&self, name: &str, corpus: &Vec<String>) -> (r: Result<Vec<usize>, ConfigError>) {
        self.resolver.search(name, corpus)
    }
}

impl EntryFinderConfig {
    /// Whether the configuration can be made into a finder.
    pub open spec fn valid(&self) -> bool {
        TemplateResolver::well_formed(self.pattern@, self.renames)
    }

    /// Builds the finder that this configuration describes.
    pub fn instantiate(self) -> (r: Result<FSEntryFinder, ConfigError>)
        ensures
            match r {
                Ok(finder) => self.valid() && finder.built_from(
                    self.roots@,
                    self.pattern@,
                    self.template@,
                    self.renames,
                ),
                Err(e) => !self.valid() && TemplateResolver::refuses(self.pattern@, self.renames, e.pattern()),
            },
    {
        FSEntryFinder::new(self.roots, self.pattern, self.template, self.renames)
    }
}

} // verus!
