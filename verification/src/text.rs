//! The finder of lines of text: the corpus is the lines of the configured
//! files, and a match is reported with its file, its line number counted from
//! one, and the line.

use crate::error::{ConfigError, ResolveError};
use crate::finder::{
    corpus_texts, found_positions, lemma_selection_in_order, positions, select_matching, selected, FindResult, Finder,
    TemplateResolver,
};
use crate::pattern::Pattern;
use crate::engine::{compiles, has_match};
use crate::rules::{declared, effective, FieldRenames, FieldText};
use crate::template::{resolved_text, resolves};
use vstd::prelude::*;

verus! {

/// The configuration of a finder of lines in text files.
#[derive(Debug)]
pub struct TextFileFinderConfig {
    pub files: Vec<String>,
    pub pattern: String,
    pub template: String,
    pub renames: Option<Vec<FieldRenames>>,
}

/// A match of a text finder.
#[derive(Debug)]
pub struct TextFindResult {
    pub filepath: String,
    pub lineno: usize,
    pub line: String,
}

impl FindResult for TextFindResult {
    open spec fn matched(&self) -> Seq<char> {
        self.line@
    }

    fn matched_text(&self) -> (s: &str) {
        self.line.as_str()
    }
}

/// A match as plain values: the file, the line number and the line.
pub open spec fn line_view(found: TextFindResult) -> (Seq<char>, int, Seq<char>) {
    (found.filepath@, found.lineno as int, found.line@)
}

/// Matches as plain values.
pub open spec fn line_views(found: Seq<TextFindResult>) -> Seq<(Seq<char>, int, Seq<char>)> {
    found.map_values(|f: TextFindResult| line_view(f))
}

/// The matches that belong to positions found among the lines of one file:
/// for each position, in order, the file, the position counted from one, and
/// the line at that position.
pub open spec fn lines_at(filepath: Seq<char>, lines: Seq<Seq<char>>, found: Seq<int>) -> Seq<
    (Seq<char>, int, Seq<char>),
> {
    found.map_values(|p: int| (filepath, p + 1, lines[p]))
}

/// Files as plain values: each file's path and its lines.
pub open spec fn file_views(files: Seq<(String, Vec<String>)>) -> Seq<(Seq<char>, Seq<Seq<char>>)> {
    files.map_values(|f: (String, Vec<String>)| (f.0@, corpus_texts(f.1@)))
}

/// The matches that a search for `key` yields in the first `n` files: the
/// matches of each file, as `lines_at` gives them, one file after the other
/// in the order of the files.
pub open spec fn lines_in_files(
    pattern: Seq<char>,
    template: Seq<char>,
    table: Seq<FieldText>,
    key: Seq<char>,
    files: Seq<(Seq<char>, Seq<Seq<char>>)>,
    n: int,
) -> Seq<(Seq<char>, int, Seq<char>)>
    decreases n,
{
    if n <= 0 {
        Seq::empty()
    } else {
        lines_in_files(pattern, template, table, key, files, n - 1) + lines_at(
            files[n - 1].0,
            files[n - 1].1,
            found_positions(pattern, template, table, key, files[n - 1].1),
        )
    }
}

/// The matches of the files follow the order of the files: what the first `m`
/// files yield stands, unchanged, at the front of what the first `n` files
/// yield, for every `m` up to `n`.
pub proof fn lemma_lines_follow_file_order(
    pattern: Seq<char>,
    template: Seq<char>,
    table: Seq<FieldText>,
    key: Seq<char>,
    files: Seq<(Seq<char>, Seq<Seq<char>>)>,
    m: int,
    n: int,
)
    requires
        0 <= m <= n,
    ensures
        lines_in_files(pattern, template, table, key, files, m).len() <= lines_in_files(
            pattern,
            template,
            table,
            key,
            files,
            n,
        ).len(),
        lines_in_files(pattern, template, table, key, files, n).subrange(
            0,
            lines_in_files(pattern, template, table, key, files, m).len() as int,
        ) == lines_in_files(pattern, template, table, key, files, m),
    decreases n - m,
{
    let short = lines_in_files(pattern, template, table, key, files, m);
    let long = lines_in_files(pattern, template, table, key, files, n);
    if m < n {
        lemma_lines_follow_file_order(pattern, template, table, key, files, m, n - 1);
        let mid = lines_in_files(pattern, template, table, key, files, n - 1);
        assert(long.subrange(0, short.len() as int) =~= mid.subrange(0, short.len() as int));
    } else {
        assert(long.subrange(0, short.len() as int) =~= short);
    }
}

/// A key that the capture pattern does not match finds nothing in any file.
pub proof fn lemma_no_match_no_lines(
    pattern: Seq<char>,
    template: Seq<char>,
    table: Seq<FieldText>,
    key: Seq<char>,
    files: Seq<(Seq<char>, Seq<Seq<char>>)>,
    n: int,
)
    requires
        !has_match(pattern, key),
    ensures
        lines_in_files(pattern, template, table, key, files, n).len() == 0,
    decreases n,
{
    if n > 0 {
        lemma_no_match_no_lines(pattern, template, table, key, files, n - 1);
    }
}

/// Adds to `out` the matches of one file: for every line that the pattern
/// matches, in the order of the file, the file's path, the line's number
/// counted from one, and the line.
fn collect_lines(re: &Pattern, filepath: &str, lines: &Vec<String>, out: &mut Vec<TextFindResult>)
    ensures
        line_views(final(out)@) == line_views(old(out)@) + lines_at(
            filepath@,
            corpus_texts(lines@),
            selected(re.text(), corpus_texts(lines@), lines.len() as int),
        ),
{
    let at = select_matching(re, lines);
    let ghost texts = corpus_texts(lines@);
    let ghost start = line_views(out@);
    let ghost wanted = lines_at(filepath@, texts, positions(at@));
    proof {
        lemma_selection_in_order(re.text(), texts, texts.len() as int);
    }
    let mut k: usize = 0;
    while k < at.len()
        invariant
            k <= at.len(),
            texts == corpus_texts(lines@),
            wanted == lines_at(filepath@, texts, positions(at@)),
            forall|a: int| 0 <= a < at.len() ==> 0 <= #[trigger] positions(at@)[a] < lines.len(),
            line_views(out@) == start + wanted.subrange(0, k as int),
        decreases at.len() - k,
    {
        let p = at[k];
        let ghost before = line_views(out@);
        assert(positions(at@)[k as int] == p);
        assert(texts[p as int] == lines[p as int]@);
        out.push(TextFindResult { filepath: String::from_str(filepath), lineno: p + 1, line: lines[p].clone() });
        assert(line_views(out@) =~= before.push(wanted[k as int]));
        assert(wanted.subrange(0, k as int + 1) =~= wanted.subrange(0, k as int).push(wanted[k as int]));
        assert(line_views(out@) =~= start + wanted.subrange(0, k as int + 1));
        k += 1;
    }
    assert(wanted.subrange(0, at.len() as int) =~= wanted);
}

/// A finder of lines in text files.
#[derive(Debug)]
pub struct TextFileFinder {
    files: Vec<String>,
    resolver: TemplateResolver,
}

impl TextFileFinder {
    /// The files to read, in order.
    pub closed spec fn file_list(&self) -> Seq<Seq<char>> {
        corpus_texts(self.files@)
    }

    /// The resolver of search patterns.
    pub closed spec fn resolver(&self) -> TemplateResolver {
        self.resolver
    }

    /// Whether the finder is the one that the given configuration describes.
    pub open spec fn built_from(
        &self,
        files: Seq<String>,
        pattern: Seq<char>,
        template: Seq<char>,
        renames: Option<Vec<FieldRenames>>,
    ) -> bool {
        &&& self.file_list() == corpus_texts(files)
        &&& self.resolver().capture_pattern() == pattern
        &&& self.resolver().template() == template
        &&& self.resolver().rules() == effective(declared(renames))
    }

    /// Builds a finder: the capture pattern and the rules are compiled. Fails
    /// exactly when one of the patterns is malformed.
    pub fn new(
        files: Vec<String>,
        parse_pattern: String,
        search_template: String,
        renames: Option<Vec<FieldRenames>>,
    ) -> (r: Result<Self, ConfigError>)
        ensures
            match r {
                Ok(finder) => TemplateResolver::well_formed(parse_pattern@, renames) && finder.built_from(
                    files@,
                    parse_pattern@,
                    search_template@,
                    renames,
                ),
                Err(e) => !TemplateResolver::well_formed(parse_pattern@, renames) && TemplateResolver::refuses(
                    parse_pattern@,
                    renames,
                    e.pattern(),
                ),
            },
    {
        Self::build(&files, parse_pattern.as_str(), search_template.as_str(), &renames)
    }

    /// Builds a finder as `new` does, from a configuration that stays with the
    /// caller.
    pub fn build(
        files: &Vec<String>,
        parse_pattern: &str,
        search_template: &str,
        renames: &Option<Vec<FieldRenames>>,
    ) -> (r: Result<Self, ConfigError>)
        ensures
            match r {
                Ok(finder) => TemplateResolver::well_formed(parse_pattern@, *renames) && finder.built_from(
                    files@,
                    parse_pattern@,
                    search_template@,
                    *renames,
                ),
                Err(e) => !TemplateResolver::well_formed(parse_pattern@, *renames) && TemplateResolver::refuses(
                    parse_pattern@,
                    *renames,
                    e.pattern(),
                ),
            },
    {
        let mut copied: Vec<String> = Vec::new();
        let mut i: usize = 0;
        while i < files.len()
            invariant
                i <= files.len(),
                copied.len() == i,
                forall|k: int| 0 <= k < i ==> (#[trigger] copied[k])@ == files[k]@,
            decreases files.len() - i,
        {
            copied.push(files[i].clone());
            i += 1;
        }
        assert(corpus_texts(copied@) =~= corpus_texts(files@));
        match TemplateResolver::new(parse_pattern, String::from_str(search_template), renames) {
            Ok(resolver) => Ok(TextFileFinder { files: copied, resolver }),
            Err(e) => Err(e),
        }
    }

    /// The files to read, in order.
    pub fn files(&self) -> (r: &Vec<String>)
        ensures
            corpus_texts(r@) == self.file_list(),
    {
        &self.files
    }

    /// Searches the lines of one file for a key: for every line that the
    /// resolved pattern matches, in the order of the file, the file's path, the
    /// line's number counted from one, and the line. A key that the capture
    /// pattern does not match finds nothing.
    pub fn find_in_file(&self, name: &str, filepath: &str, lines: &Vec<String>) -> (r: Result<
        Vec<TextFindResult>,
        ConfigError,
    >)
        ensures
            ({
                let p = self.resolver().capture_pattern();
                let t = self.resolver().template();
                let table = self.resolver().rules();
                match r {
                    Ok(found) => (has_match(p, name@) ==> resolves(p, t, table, name@)) && line_views(found@)
                        == lines_at(
                        filepath@,
                        corpus_texts(lines@),
                        found_positions(p, t, table, name@, corpus_texts(lines@)),
                    ),
                    Err(e) => has_match(p, name@) && !resolves(p, t, table, name@) && !compiles(e.pattern()),
                }
            }),
    {
        match self.resolver.resolve(name) {
            Ok(re) => {
                let mut found: Vec<TextFindResult> = Vec::new();
                collect_lines(&re, filepath, lines, &mut found);
                assert(line_views(found@) =~= lines_at(
                    filepath@,
                    corpus_texts(lines@),
                    selected(re.text(), corpus_texts(lines@), lines.len() as int),
                ));
                Ok(found)
            },
            Err(ResolveError::NoMatch) => {
                let found: Vec<TextFindResult> = Vec::new();
                assert(line_views(found@) =~= lines_at(filepath@, corpus_texts(lines@), Seq::<int>::empty()));
                Ok(found)
            },
            Err(ResolveError::BadPattern(p)) => Err(ConfigError::BadPattern(p)),
        }
    }

    /// Searches the lines of several files for a key, one pattern resolved for
    /// all of them: the matches of each file as `find_in_file` gives them, one
    /// file after the other in the order in which the files are given. A key
    /// that the capture pattern does not match finds nothing.
    pub fn find_in_files(&self, name: &str, files: &Vec<(String, Vec<String>)>) -> (r: Result<
        Vec<TextFindResult>,
        ConfigError,
    >)
        ensures
            ({
                let p = self.resolver().capture_pattern();
                let t = self.resolver().template();
                let table = self.resolver().rules();
                match r {
                    Ok(found) => (has_match(p, name@) ==> resolves(p, t, table, name@)) && line_views(found@)
                        == lines_in_files(p, t, table, name@, file_views(files@), files.len() as int),
                    Err(e) => has_match(p, name@) && !resolves(p, t, table, name@) && !compiles(e.pattern()),
                }
            }),
    {
        let ghost p = self.resolver().capture_pattern();
        let ghost t = self.resolver().template();
        let ghost table = self.resolver().rules();
        let ghost views = file_views(files@);
        let mut found: Vec<TextFindResult> = Vec::new();
        let re = match self.resolver.resolve(name) {
            Ok(re) => re,
            Err(ResolveError::NoMatch) => {
                proof {
                    lemma_no_match_no_lines(p, t, table, name@, views, files.len() as int);
                }
                assert(line_views(found@) =~= lines_in_files(p, t, table, name@, views, files.len() as int));
                return Ok(found);
            },
            Err(ResolveError::BadPattern(bad)) => {
                return Err(ConfigError::BadPattern(bad));
            },
        };
        assert(line_views(found@) =~= lines_in_files(p, t, table, name@, views, 0));
        let mut i: usize = 0;
        while i < files.len()
            invariant
                i <= files.len(),
                views == file_views(files@),
                has_match(p, name@),
                re.text() == resolved_text(p, t, table, name@),
                line_views(found@) == lines_in_files(p, t, table, name@, views, i as int),
            decreases files.len() - i,
        {
            let file = &files[i];
            assert(views[i as int] == (file.0@, corpus_texts(file.1@)));
            collect_lines(&re, file.0.as_str(), &file.1, &mut found);
            i += 1;
        }
        Ok(found)
    }
}

impl Finder for TextFileFinder {
    open spec fn capture_pattern(&self) -> Seq<char> {
        self.resolver().capture_pattern()
    }

    open spec fn template(&self) -> Seq<char> {
        self.resolver().template()
    }

    open spec fn rules(&self) -> Seq<FieldText> {
        self.resolver().rules()
    }

    /// Searches a list of lines for one key.
    fn find(&self, name: &str, corpus: &Vec<String>) -> (r: Result<Vec<usize>, ConfigError>) {
        self.resolver.search(name, corpus)
    }
}

impl TextFileFinderConfig {
    /// Whether the configuration can be made into a finder.
    pub open spec fn valid(&self) -> bool {
        TemplateResolver::well_formed(self.pattern@, self.renames)
    }

    /// Builds the finder that this configuration describes.
    pub fn instantiate(self) -> (r: Result<TextFileFinder, ConfigError>)
        ensures
            match r {
                Ok(finder) => self.valid() && finder.built_from(
                    self.files@,
                    self.pattern@,
                    self.template@,
                    self.renames,
                ),
                Err(e) => !self.valid() && TemplateResolver::refuses(self.pattern@, self.renames, e.pattern()),
            },
    {
        TextFileFinder::new(self.files, self.pattern, self.template, self.renames)
    }
}

} // verus!
