//! Configured finders and the route table: every route name stands for an
//! ordered list of finders, built once from the configuration.

use crate::error::ConfigError;
use crate::finder::Finder;
use crate::fs::{EntryFinderConfig, FSEntryFinder};
use crate::engine::compiles;
use crate::rules::{same_text, FieldText};
use crate::text::{TextFileFinder, TextFileFinderConfig};
use vstd::prelude::*;

verus! {

/// The kinds of filesystem finder.
#[derive(Debug)]
pub enum FsFinderConfig {
    FindEntry(EntryFinderConfig),
}

/// The kinds of text finder.
#[derive(Debug)]
pub enum TextFinderConfig {
    TextFileEntry(TextFileFinderConfig),
}

/// The configuration of one finder, by family.
#[derive(Debug)]
pub enum FinderConfig {
    Fs(FsFinderConfig),
    Text(TextFinderConfig),
}

/// The configuration as a whole: the routes in the order they were declared,
/// each with its name and the configurations of its finders.
#[derive(Debug)]
pub struct Saved {
    pub routes: Vec<(String, Vec<FinderConfig>)>,
}

/// A finder of any kind.
#[derive(Debug)]
pub enum AnyFinder {
    Fs(FSEntryFinder),
    Text(TextFileFinder),
}

impl AnyFinder {
    /// Whether the finder is the one that the configuration describes.
    pub open spec fn built_from(&self, config: FinderConfig) -> bool {
        match (*self, config) {
            (AnyFinder::Fs(finder), FinderConfig::Fs(FsFinderConfig::FindEntry(c))) => finder.built_from(
                c.roots@,
                c.pattern@,
                c.template@,
                c.renames,
            ),
            (AnyFinder::Text(finder), FinderConfig::Text(TextFinderConfig::TextFileEntry(c))) => finder.built_from(
                c.files@,
                c.pattern@,
                c.template@,
                c.renames,
            ),
            _ => false,
        }
    }
}

impl Finder for AnyFinder {
    open spec fn capture_pattern(&self) -> Seq<char> {
        match self {
            AnyFinder::Fs(finder) => finder.capture_pattern(),
            AnyFinder::Text(finder) => finder.capture_pattern(),
        }
    }

    open spec fn template(&self) -> Seq<char> {
        match self {
            AnyFinder::Fs(finder) => finder.template(),
            AnyFinder::Text(finder) => finder.template(),
        }
    }

    open spec fn rules(&self) -> Seq<FieldText> {
        match self {
            AnyFinder::Fs(finder) => finder.rules(),
            AnyFinder::Text(finder) => finder.rules(),
        }
    }

    /// Searches a corpus for one key with whichever finder this is.
    fn find(&self, name: &str, corpus: &Vec<String>) -> (r: Result<Vec<usize>, ConfigError>) {
        match self {
            AnyFinder::Fs(finder) => finder.find(name, corpus),
            AnyFinder::Text(finder) => finder.find(name, corpus),
        }
    }
}

impl FsFinderConfig {
    /// Whether the configuration can be made into a finder.
    pub open spec fn valid(&self) -> bool {
        match self {
            FsFinderConfig::FindEntry(c) => c.valid(),
        }
    }

    /// Builds the finder that this configuration describes.
    pub fn instantiate(self) -> (r: Result<AnyFinder, ConfigError>)
        ensures
            match r {
                Ok(finder) => self.valid() && finder.built_from(FinderConfig::Fs(self)),
                Err(e) => !self.valid() && !compiles(e.pattern()),
            },
    {
        match self {
            FsFinderConfig::FindEntry(config) => match config.instantiate() {
                Ok(finder) => Ok(AnyFinder::Fs(finder)),
                Err(e) => Err(e),
            },
        }
    }
}

impl TextFinderConfig {
    /// Whether the configuration can be made into a finder.
    pub open spec fn valid(&self) -> bool {
        match self {
            TextFinderConfig::TextFileEntry(c) => c.valid(),
        }
    }

    /// Builds the finder that this configuration describes.
    pub fn instantiate(self) -> (r: Result<AnyFinder, ConfigError>)
        ensures
            match r {
                Ok(finder) => self.valid() && finder.built_from(FinderConfig::Text(self)),
                Err(e) => !self.valid() && !compiles(e.pattern()),
            },
    {
        match self {
            TextFinderConfig::TextFileEntry(config) => match config.instantiate() {
                Ok(finder) => Ok(AnyFinder::Text(finder)),
                Err(e) => Err(e),
            },
        }
    }
}

impl FinderConfig {
    /// Whether the configuration can be made into a finder: its capture
    /// pattern and the patterns of its rules are well-formed.
    pub open spec fn valid(&self) -> bool {
        match self {
            FinderConfig::Fs(c) => c.valid(),
            FinderConfig::Text(c) => c.valid(),
        }
    }

    /// Builds the finder that this configuration describes. Fails exactly
    /// when the configuration holds a malformed pattern.
    pub fn instantiate(self) -> (r: Result<AnyFinder, ConfigError>)
        ensures
            match r {
                Ok(finder) => self.valid() && finder.built_from(self),
                Err(e) => !self.valid() && !compiles(e.pattern()),
            },
    {
        match self {
            FinderConfig::Fs(config) => config.instantiate(),
            FinderConfig::Text(config) => config.instantiate(),
        }
    }

    /// Builds the finder as `instantiate` does, leaving the configuration with
    /// the caller.
    pub fn build(&self) -> (r: Result<AnyFinder, ConfigError>)
        ensures
            match r {
                Ok(finder) => self.valid() && finder.built_from(*self),
                Err(e) => !self.valid() && !compiles(e.pattern()),
            },
    {
        match self {
            FinderConfig::Fs(FsFinderConfig::FindEntry(c)) => match FSEntryFinder::build(
                &c.roots,
                c.pattern.as_str(),
                c.template.as_str(),
                &c.renames,
            ) {
                Ok(finder) => Ok(AnyFinder::Fs(finder)),
                Err(e) => Err(e),
            },
            FinderConfig::Text(TextFinderConfig::TextFileEntry(c)) => match TextFileFinder::build(
                &c.files,
                c.pattern.as_str(),
                c.template.as_str(),
                &c.renames,
            ) {
                Ok(finder) => Ok(AnyFinder::Text(finder)),
                Err(e) => Err(e),
            },
        }
    }
}

/// Whether every configuration of the list can be made into a finder.
pub open spec fn all_valid(configs: Seq<FinderConfig>) -> bool {
    forall|j: int| 0 <= j < configs.len() ==> (#[trigger] configs[j]).valid()
}

/// Whether the finders are, one for one and in order, those that the
/// configurations describe.
pub open spec fn finders_built_from(finders: Seq<AnyFinder>, configs: Seq<FinderConfig>) -> bool {
    finders.len() == configs.len() && forall|j: int|
        0 <= j < configs.len() ==> (#[trigger] finders[j]).built_from(configs[j])
}

/// A route: its name and its finders in order.
#[derive(Debug)]
pub struct Route {
    pub name: String,
    pub finders: Vec<AnyFinder>,
}

/// The routes of a configuration, with their finders built.
#[derive(Debug)]
pub struct RouteTable {
    routes: Vec<Route>,
}

/// Whether a route called `name` is among the routes.
pub open spec fn has_route(routes: Seq<Route>, name: Seq<char>) -> bool {
    exists|k: int| 0 <= k < routes.len() && (#[trigger] routes[k]).name@ == name
}

/// Whether no name stands twice among the routes.
pub open spec fn route_names_distinct(routes: Seq<Route>) -> bool {
    forall|a: int, b: int| 0 <= a < b < routes.len() ==> (#[trigger] routes[a]).name@ != (#[trigger] routes[b]).name@
}

/// Whether one of the configured routes at the given positions is called
/// `name`.
pub open spec fn named_among(routes: Seq<(String, Vec<FinderConfig>)>, at: Seq<int>, name: Seq<char>) -> bool {
    exists|k: int| 0 <= k < at.len() && routes[#[trigger] at[k]].0@ == name
}

/// The positions, among the first `n` configured routes, of the routes that
/// count. The configuration stands for a mapping: of several routes
/// configured under one name the first counts, and the later ones are left
/// out.
pub open spec fn first_routes(routes: Seq<(String, Vec<FinderConfig>)>, n: int) -> Seq<int>
    decreases n,
{
    if n <= 0 {
        Seq::empty()
    } else if named_among(routes, first_routes(routes, n - 1), routes[n - 1].0@) {
        first_routes(routes, n - 1)
    } else {
        first_routes(routes, n - 1).push(n - 1)
    }
}

/// Where no name stands twice among the configured routes, every route
/// counts.
pub proof fn lemma_all_routes_count(routes: Seq<(String, Vec<FinderConfig>)>, n: int)
    requires
        0 <= n <= routes.len(),
        forall|a: int, b: int| 0 <= a < b < routes.len() ==> (#[trigger] routes[a]).0@ != (#[trigger] routes[b]).0@,
    ensures
        first_routes(routes, n) == Seq::new(n as nat, |i: int| i),
    decreases n,
{
    if n > 0 {
        lemma_all_routes_count(routes, n - 1);
        let before = first_routes(routes, n - 1);
        if named_among(routes, before, routes[n - 1].0@) {
            let k = choose|k: int| 0 <= k < before.len() && routes[#[trigger] before[k]].0@ == routes[n - 1].0@;
            assert(before[k] == k);
            assert(routes[k].0@ != routes[n - 1].0@);
        }
        assert(before.push(n - 1) =~= Seq::new(n as nat, |i: int| i));
    } else {
        assert(first_routes(routes, n) =~= Seq::new(n as nat, |i: int| i));
    }
}

impl Saved {
    /// Whether every finder of every route can be built.
    pub open spec fn valid(&self) -> bool {
        forall|i: int| 0 <= i < self.routes.len() ==> all_valid((#[trigger] self.routes[i]).1@)
    }
}

/// Builds the finders of one route, in order.
fn build_finders(configs: &Vec<FinderConfig>) -> (r: Result<Vec<AnyFinder>, ConfigError>)
    ensures
        match r {
            Ok(finders) => all_valid(configs@) && finders_built_from(finders@, configs@),
            Err(e) => !all_valid(configs@) && !compiles(e.pattern()),
        },
{
    let mut finders: Vec<AnyFinder> = Vec::new();
    let mut j: usize = 0;
    while j < configs.len()
        invariant
            j <= configs.len(),
            finders.len() == j,
            forall|k: int| 0 <= k < j ==> (#[trigger] configs[k]).valid(),
            forall|k: int| 0 <= k < j ==> (#[trigger] finders[k]).built_from(configs[k]),
        decreases configs.len() - j,
    {
        match configs[j].build() {
            Ok(finder) => {
                finders.push(finder);
            },
            Err(e) => {
                assert(!configs[j as int].valid());
                return Err(e);
            },
        }
        j += 1;
    }
    Ok(finders)
}

impl RouteTable {
    /// No name stands twice among the routes.
    #[verifier::type_invariant]
    spec fn named_once(&self) -> bool {
        route_names_distinct(self.routes@)
    }

    /// The routes, in the order of the configuration.
    pub closed spec fn routes(&self) -> Seq<Route> {
        self.routes@
    }

    /// Whether the table holds, one for one and in order, the routes of the
    /// configuration that count, each under its name and with its finders
    /// built.
    pub open spec fn built_from(&self, saved: Saved) -> bool {
        let at = first_routes(saved.routes@, saved.routes.len() as int);
        self.routes().len() == at.len() && forall|k: int|
            0 <= k < at.len() ==> (#[trigger] self.routes()[k]).name@ == saved.routes[at[k]].0@
                && finders_built_from(self.routes()[k].finders@, saved.routes[at[k]].1@)
    }

    /// The position of the first route called `name`, from position `from` on.
    pub open spec fn position_of(&self, name: Seq<char>, from: int) -> Option<int>
        decreases self.routes().len() - from,
    {
        if from < 0 || from >= self.routes().len() {
            None
        } else if self.routes()[from].name@ == name {
            Some(from)
        } else {
            self.position_of(name, from + 1)
        }
    }

    /// Builds the route table of a configuration. Fails exactly when one of
    /// its finders holds a malformed pattern, whether or not its route counts.
    /// No name stands twice in the table.
    pub fn build(saved: &Saved) -> (r: Result<RouteTable, ConfigError>)
        ensures
            match r {
                Ok(table) => saved.valid() && table.built_from(*saved) && route_names_distinct(table.routes()),
                Err(e) => !saved.valid() && !compiles(e.pattern()),
            },
    {
        let mut routes: Vec<Route> = Vec::new();
        let mut i: usize = 0;
        while i < saved.routes.len()
            invariant
                i <= saved.routes.len(),
                routes.len() == first_routes(saved.routes@, i as int).len(),
                route_names_distinct(routes@),
                forall|k: int| 0 <= k < i ==> all_valid((#[trigger] saved.routes[k]).1@),
                forall|k: int|
                    0 <= k < routes.len() ==> (#[trigger] routes[k]).name@ == saved.routes[first_routes(
                        saved.routes@,
                        i as int,
                    )[k]].0@ && finders_built_from(
                        routes[k].finders@,
                        saved.routes[first_routes(saved.routes@, i as int)[k]].1@,
                    ),
            decreases saved.routes.len() - i,
        {
            let route = &saved.routes[i];
            let ghost at = first_routes(saved.routes@, i as int);
            match build_finders(&route.1) {
                Ok(finders) => {
                    let seen = Self::holds_name(&routes, route.0.as_str());
                    proof {
                        if seen {
                            let k = choose|k: int| 0 <= k < routes.len() && (#[trigger] routes[k]).name@ == route.0@;
                            assert(saved.routes[at[k]].0@ == route.0@);
                            assert(named_among(saved.routes@, at, route.0@));
                        } else {
                            if named_among(saved.routes@, at, route.0@) {
                                let k = choose|k: int|
                                    0 <= k < at.len() && saved.routes[#[trigger] at[k]].0@ == route.0@;
                                assert(routes[k].name@ == route.0@);
                            }
                        }
                    }
                    if !seen {
                        routes.push(Route { name: route.0.clone(), finders });
                    }
                },
                Err(e) => {
                    assert(!all_valid(saved.routes[i as int].1@));
                    return Err(e);
                },
            }
            i += 1;
        }
        Ok(RouteTable { routes })
    }

    /// Whether one of the routes is called `name`.
    fn holds_name(routes: &Vec<Route>, name: &str) -> (r: bool)
        ensures
            r == has_route(routes@, name@),
    {
        let mut k: usize = 0;
        while k < routes.len()
            invariant
                k <= routes.len(),
                forall|a: int| 0 <= a < k ==> (#[trigger] routes[a]).name@ != name@,
            decreases routes.len() - k,
        {
            if same_text(routes[k].name.as_str(), name) {
                return true;
            }
            k += 1;
        }
        false
    }

    /// The number of routes.
    pub fn len(&self) -> (n: usize)
        ensures
            n == self.routes().len(),
    {
        self.routes.len()
    }

    /// The route at a position.
    pub fn route(&self, i: usize) -> (r: &Route)
        requires
            i < self.routes().len(),
        ensures
            *r == self.routes()[i as int],
    {
        &self.routes[i]
    }

    /// Hands the routes out, in order; no name stands twice among them.
    pub fn into_routes(self) -> (r: Vec<Route>)
        ensures
            r@ == self.routes(),
            route_names_distinct(r@),
    {
        proof {
            use_type_invariant(&self);
        }
        self.routes
    }

    /// Looks a route up by its name: the one route of that name, or `None`
    /// exactly when the table holds no route of that name.
    pub fn lookup(&self, name: &str) -> (r: Option<&Route>)
        ensures
            match r {
                Some(route) => self.position_of(name@, 0) is Some && *route == self.routes()[self.position_of(
                    name@,
                    0,
                ).unwrap()] && route.name@ == name@ && forall|i: int|
                    0 <= i < self.routes().len() && (#[trigger] self.routes()[i]).name@ == name@ ==> i
                        == self.position_of(name@, 0).unwrap(),
                None => self.position_of(name@, 0) is None && forall|i: int|
                    0 <= i < self.routes().len() ==> (#[trigger] self.routes()[i]).name@ != name@,
            },
    {
        proof {
            use_type_invariant(self);
        }
        let mut i: usize = 0;
        while i < self.routes.len()
            invariant
                i <= self.routes.len(),
                route_names_distinct(self.routes()),
                self.position_of(name@, 0) == self.position_of(name@, i as int),
                forall|k: int| 0 <= k < i ==> (#[trigger] self.routes()[k]).name@ != name@,
            decreases self.routes.len() - i,
        {
            if same_text(self.routes[i].name.as_str(), name) {
                return Some(&self.routes[i]);
            }
            i += 1;
        }
        None
    }
}

} // verus!
