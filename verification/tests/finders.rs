use pattern_finder::cache::{CacheAction, EntriesCache, CACHE_TTL_MS};
use pattern_finder::config::{
    AnyFinder, FinderConfig, FsFinderConfig, RouteTable, Saved, TextFinderConfig,
};
use pattern_finder::error::ConfigError;
use pattern_finder::finder::{select_matching, FindResult, Finder, TemplateResolver};
use pattern_finder::fs::{
    describe_entry, entry_result, Entry, EntryConfig, FSEntryFinder, FindEntryConfig, WalkdirOptions,
};
use pattern_finder::rules::FieldRenames;
use pattern_finder::text::{TextFileFinder, TextFileFinderConfig};
use pattern_finder::pattern::Pattern;

const PATTERN: &str = r"^(?P<id>\d+)-(?P<kind>\w+)$";
const TEMPLATE: &str = "items/${kind}/${id}\\.dat$";

fn strings(items: &[&str]) -> Vec<String> {
    items.iter().map(|s| s.to_string()).collect()
}

fn kind_renames() -> Option<Vec<FieldRenames>> {
    Some(vec![FieldRenames {
        name: "kind".to_string(),
        cases: vec![
            ("^report$".to_string(), "reports".to_string()),
            ("^invoice$".to_string(), "invoices".to_string()),
        ],
    }])
}

fn fs_config() -> FindEntryConfig {
    FindEntryConfig {
        roots: vec![
            EntryConfig::Root("/srv".to_string()),
            EntryConfig::Configured(Entry {
                root: "/data".to_string(),
                options: Some(WalkdirOptions { follow_links: Some(true), max_depth: Some(3) }),
            }),
        ],
        pattern: PATTERN.to_string(),
        template: TEMPLATE.to_string(),
        renames: kind_renames(),
    }
}

fn text_config() -> TextFileFinderConfig {
    TextFileFinderConfig {
        files: strings(&["a.txt", "b.txt"]),
        pattern: PATTERN.to_string(),
        template: "^${kind}:${id}$".to_string(),
        renames: None,
    }
}

fn corpus() -> Vec<String> {
    strings(&[
        "/srv/items/reports/7.dat",
        "/srv/items/report/7.dat",
        "/srv/items/reports/17.dat",
        "/data/items/reports/7.dat",
        "/data/items/reports/7.dat.bak",
        "/data/items/invoices/7.dat",
    ])
}

#[test]
fn selection_keeps_corpus_order() {
    let re = Pattern::new("b").unwrap();
    let found = select_matching(&re, &strings(&["b", "a", "ab", "", "cbc", "c"]));
    assert_eq!(found, vec![0, 2, 4]);
    assert_eq!(select_matching(&re, &Vec::new()), Vec::<usize>::new());
    assert_eq!(select_matching(&re, &strings(&["a", "c"])), Vec::<usize>::new());
}

#[test]
fn fs_finder_finds_paths_in_order() {
    let finder = fs_config().instantiate().unwrap();
    assert_eq!(finder.find("7-report", &corpus()).unwrap(), vec![0, 3]);
    assert_eq!(finder.find("7-invoice", &corpus()).unwrap(), vec![5]);
    assert_eq!(finder.find("17-report", &corpus()).unwrap(), vec![2]);
    assert_eq!(finder.find("8-report", &corpus()).unwrap(), Vec::<usize>::new());
}

#[test]
fn fs_finder_normalises_roots() {
    let finder = fs_config().instantiate().unwrap();
    let roots = finder.roots();
    assert_eq!(roots.len(), 2);
    assert_eq!(roots[0].root, "/srv");
    assert!(roots[0].options.is_none());
    assert_eq!(roots[1].root, "/data");
    let options = roots[1].options.unwrap();
    assert_eq!(options.follow_links, Some(true));
    assert_eq!(options.max_depth, Some(3));
}

#[test]
fn key_that_does_not_match_finds_nothing() {
    let finder = fs_config().instantiate().unwrap();
    assert_eq!(finder.find("report", &corpus()).unwrap(), Vec::<usize>::new());
    assert_eq!(finder.find("", &corpus()).unwrap(), Vec::<usize>::new());
    let text = text_config().instantiate().unwrap();
    let found = text.find_in_file("no match", "a.txt", &strings(&["report:7"])).unwrap();
    assert!(found.is_empty());
}

#[test]
fn other_finders_of_a_route_still_answer() {
    let saved = Saved {
        routes: vec![(
            "mixed".to_string(),
            vec![
                FinderConfig::Text(TextFinderConfig::TextFileEntry(TextFileFinderConfig {
                    files: vec![],
                    pattern: "^never$".to_string(),
                    template: "x".to_string(),
                    renames: None,
                })),
                FinderConfig::Text(TextFinderConfig::TextFileEntry(text_config())),
            ],
        )],
    };
    let table = RouteTable::build(&saved).unwrap();
    let route = table.lookup("mixed").unwrap();
    let lines = strings(&["report:7", "x"]);
    assert_eq!(route.finders[0].find("7-report", &lines).unwrap(), Vec::<usize>::new());
    assert_eq!(route.finders[1].find("7-report", &lines).unwrap(), vec![0]);
}

#[test]
fn malformed_resolved_pattern_is_an_error() {
    let finder = FSEntryFinder::new(vec![], PATTERN.to_string(), "(${kind}".to_string(), None).unwrap();
    match finder.find("7-report", &corpus()) {
        Err(ConfigError::BadPattern(p)) => assert_eq!(p, "(report"),
        Ok(_) => panic!("a malformed pattern was accepted"),
    }
}

#[test]
fn malformed_capture_pattern_is_refused() {
    let r = FSEntryFinder::new(vec![], "(".to_string(), "x".to_string(), None);
    match r {
        Err(ConfigError::BadPattern(p)) => assert_eq!(p, "("),
        Ok(_) => panic!("a malformed pattern was accepted"),
    }
    let r = TextFileFinder::new(vec![], "[".to_string(), "x".to_string(), kind_renames());
    assert!(matches!(r, Err(ConfigError::BadPattern(_))));
    let r = TemplateResolver::new(
        PATTERN,
        "x".to_string(),
        &Some(vec![FieldRenames { name: "id".to_string(), cases: vec![("(".to_string(), "y".to_string())] }]),
    );
    match r {
        Err(ConfigError::BadPattern(p)) => assert_eq!(p, "("),
        Ok(_) => panic!("a malformed pattern was accepted"),
    }
}

#[test]
fn resolver_builds_pattern_for_key() {
    let resolver = TemplateResolver::new(PATTERN, "items/${kind}/${id}.dat".to_string(), &kind_renames()).unwrap();
    assert_eq!(resolver.resolve("7-report").unwrap().as_str(), "items/reports/7.dat");
    assert_eq!(resolver.search("7-report", &corpus()).unwrap(), vec![0, 3, 4]);
}

#[test]
fn entry_is_described_with_its_file_name() {
    let found = describe_entry("/srv/items/reports/7.dat", true).unwrap();
    assert_eq!(found.path, "/srv/items/reports/7.dat");
    assert_eq!(found.filename, "7.dat");
    assert!(found.is_file);
    assert_eq!(found.matched_text(), "/srv/items/reports/7.dat");
    let found = describe_entry("items", false).unwrap();
    assert_eq!(found.filename, "items");
    assert!(!found.is_file);
    assert!(describe_entry("/srv/..", false).is_none());
}

#[test]
fn result_needs_a_file_name() {
    let found = entry_result("a/b", Some("b".to_string()), true).unwrap();
    assert_eq!(found.path, "a/b");
    assert_eq!(found.filename, "b");
    assert!(found.is_file);
    assert!(entry_result("a/b", None, true).is_none());
}

#[test]
fn text_finder_numbers_lines_from_one() {
    let finder = text_config().instantiate().unwrap();
    assert_eq!(finder.files(), &strings(&["a.txt", "b.txt"]));
    let lines = strings(&["report:7", "invoice:7", "report:77", "report:7", ""]);
    let found = finder.find_in_file("7-report", "a.txt", &lines).unwrap();
    assert_eq!(found.len(), 2);
    assert_eq!(found[0].filepath, "a.txt");
    assert_eq!(found[0].lineno, 1);
    assert_eq!(found[0].line, "report:7");
    assert_eq!(found[0].matched_text(), "report:7");
    assert_eq!(found[1].filepath, "a.txt");
    assert_eq!(found[1].lineno, 4);
    assert_eq!(found[1].line, "report:7");
    assert_eq!(finder.find("7-invoice", &lines).unwrap(), vec![1]);
    assert!(finder.find_in_file("7-report", "b.txt", &Vec::new()).unwrap().is_empty());
}

#[test]
fn text_finder_joins_files_in_their_order() {
    let finder = text_config().instantiate().unwrap();
    let files = vec![
        ("b.txt".to_string(), strings(&["x", "report:7", "report:7"])),
        ("empty.txt".to_string(), Vec::new()),
        ("a.txt".to_string(), strings(&["report:7", "invoice:7"])),
        ("b.txt".to_string(), strings(&["report:7"])),
    ];
    let found = finder.find_in_files("7-report", &files).unwrap();
    let seen: Vec<(&str, usize, &str)> =
        found.iter().map(|f| (f.filepath.as_str(), f.lineno, f.line.as_str())).collect();
    assert_eq!(
        seen,
        vec![
            ("b.txt", 2, "report:7"),
            ("b.txt", 3, "report:7"),
            ("a.txt", 1, "report:7"),
            ("b.txt", 1, "report:7"),
        ]
    );
    let found = finder.find_in_files("7-invoice", &files).unwrap();
    assert_eq!(found.len(), 1);
    assert_eq!(found[0].filepath, "a.txt");
    assert_eq!(found[0].lineno, 2);
    assert!(finder.find_in_files("no match", &files).unwrap().is_empty());
    assert!(finder.find_in_files("7-report", &Vec::new()).unwrap().is_empty());
}

#[test]
fn malformed_resolved_pattern_fails_for_any_files() {
    let finder =
        TextFileFinder::new(vec![], PATTERN.to_string(), "(${kind}".to_string(), None).unwrap();
    match finder.find_in_files("7-report", &Vec::new()) {
        Err(ConfigError::BadPattern(p)) => assert_eq!(p, "(report"),
        Ok(_) => panic!("a malformed pattern was accepted"),
    }
    assert!(finder.find_in_file("7-report", "a.txt", &strings(&["x"])).is_err());
    assert!(finder.find_in_files("report", &Vec::new()).unwrap().is_empty());
}

#[test]
fn configurations_build_their_kind_of_finder() {
    let fs = FinderConfig::Fs(FsFinderConfig::FindEntry(fs_config())).instantiate().unwrap();
    assert!(matches!(fs, AnyFinder::Fs(_)));
    let text = FinderConfig::Text(TextFinderConfig::TextFileEntry(text_config())).instantiate().unwrap();
    assert!(matches!(text, AnyFinder::Text(_)));
    let fs = FsFinderConfig::FindEntry(fs_config()).instantiate().unwrap();
    assert_eq!(fs.find("7-report", &corpus()).unwrap(), vec![0, 3]);
    let text = TextFinderConfig::TextFileEntry(text_config()).instantiate().unwrap();
    assert_eq!(text.find("7-report", &strings(&["x", "report:7"])).unwrap(), vec![1]);
    let built = FinderConfig::Fs(FsFinderConfig::FindEntry(fs_config())).build().unwrap();
    assert_eq!(built.find("7-invoice", &corpus()).unwrap(), vec![5]);
    let mut broken = fs_config();
    broken.pattern = "(".to_string();
    assert!(FinderConfig::Fs(FsFinderConfig::FindEntry(broken)).instantiate().is_err());
}

#[test]
fn route_table_keeps_routes_and_finders_in_order() {
    let saved = Saved {
        routes: vec![
            (
                "docs".to_string(),
                vec![
                    FinderConfig::Fs(FsFinderConfig::FindEntry(fs_config())),
                    FinderConfig::Text(TextFinderConfig::TextFileEntry(text_config())),
                ],
            ),
            ("empty".to_string(), vec![]),
            ("docs".to_string(), vec![]),
        ],
    };
    let table = RouteTable::build(&saved).unwrap();
    assert_eq!(table.len(), 2);
    assert_eq!(table.route(0).name, "docs");
    assert_eq!(table.route(1).name, "empty");
    let docs = table.lookup("docs").unwrap();
    assert_eq!(docs.finders.len(), 2);
    assert!(matches!(docs.finders[0], AnyFinder::Fs(_)));
    assert!(matches!(docs.finders[1], AnyFinder::Text(_)));
    assert!(table.lookup("empty").unwrap().finders.is_empty());
    assert!(table.lookup("unknown").is_none());
}

#[test]
fn route_table_holds_each_name_once() {
    let mut other = text_config();
    other.template = "^other$".to_string();
    let saved = Saved {
        routes: vec![
            ("a".to_string(), vec![FinderConfig::Text(TextFinderConfig::TextFileEntry(text_config()))]),
            ("b".to_string(), vec![]),
            ("a".to_string(), vec![FinderConfig::Text(TextFinderConfig::TextFileEntry(other))]),
            ("c".to_string(), vec![]),
            ("b".to_string(), vec![]),
        ],
    };
    let table = RouteTable::build(&saved).unwrap();
    assert_eq!(table.len(), 3);
    let a = table.lookup("a").unwrap();
    assert_eq!(a.finders.len(), 1);
    assert_eq!(a.finders[0].find("7-report", &strings(&["other", "report:7"])).unwrap(), vec![1]);
    let names: Vec<String> = table.into_routes().into_iter().map(|route| route.name).collect();
    assert_eq!(names, strings(&["a", "b", "c"]));
}

#[test]
fn malformed_finder_of_a_repeated_route_is_refused() {
    let mut broken = text_config();
    broken.pattern = "(".to_string();
    let saved = Saved {
        routes: vec![
            ("a".to_string(), vec![]),
            ("a".to_string(), vec![FinderConfig::Text(TextFinderConfig::TextFileEntry(broken))]),
        ],
    };
    assert!(matches!(RouteTable::build(&saved), Err(ConfigError::BadPattern(_))));
}

#[test]
fn route_table_refuses_malformed_finder() {
    let mut broken = text_config();
    broken.renames = Some(vec![FieldRenames {
        name: "kind".to_string(),
        cases: vec![("[".to_string(), "x".to_string())],
    }]);
    let saved = Saved {
        routes: vec![
            ("good".to_string(), vec![FinderConfig::Text(TextFinderConfig::TextFileEntry(text_config()))]),
            ("bad".to_string(), vec![FinderConfig::Text(TextFinderConfig::TextFileEntry(broken))]),
        ],
    };
    match RouteTable::build(&saved) {
        Err(ConfigError::BadPattern(p)) => assert_eq!(p, "["),
        Ok(_) => panic!("a malformed pattern was accepted"),
    }
}

#[test]
fn cache_is_reused_within_time_to_live() {
    let finder = fs_config().instantiate().unwrap();
    let mut cache = finder.new_cache(1_000);
    assert_eq!(CACHE_TTL_MS, 5000);
    assert!(cache.entries().is_none());
    assert_eq!(cache.poll(1_000), CacheAction::Refresh);
    cache.store(strings(&["a", "b"]), 1_200);
    assert_eq!(cache.poll(1_200), CacheAction::Reuse);
    assert_eq!(cache.poll(6_200), CacheAction::Reuse);
    assert_eq!(cache.entries().unwrap(), &strings(&["a", "b"]));
    assert_eq!(cache.poll(6_201), CacheAction::Refresh);
    cache.store(strings(&["c"]), 6_300);
    assert_eq!(cache.entries().unwrap(), &strings(&["c"]));
    assert_eq!(cache.poll(6_300), CacheAction::Reuse);
    assert_eq!(cache.poll(11_301), CacheAction::Refresh);
}

#[test]
fn cache_treats_earlier_clock_reading_as_no_time_passed() {
    let mut cache = EntriesCache::with_ttl(500, 10);
    assert_eq!(cache.poll(0), CacheAction::Refresh);
    cache.store(strings(&["a"]), 500);
    assert_eq!(cache.poll(100), CacheAction::Reuse);
    assert_eq!(cache.poll(510), CacheAction::Reuse);
    assert_eq!(cache.poll(511), CacheAction::Refresh);
    assert_eq!(cache.poll(u64::MAX), CacheAction::Refresh);
    let mut zero = EntriesCache::with_ttl(0, 0);
    zero.store(Vec::new(), 7);
    assert_eq!(zero.poll(7), CacheAction::Reuse);
    assert_eq!(zero.poll(8), CacheAction::Refresh);
}
