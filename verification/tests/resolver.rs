use pattern_finder::error::{ConfigError, ResolveError};
use pattern_finder::rules::{
    build_renames, find_rules, rewrite_value, same_text, FieldRenames, FieldRules,
};
use pattern_finder::template::{build_search_regex, choose_substitution, resolve_text};
use pattern_finder::pattern::Pattern;

fn capture() -> Pattern {
    Pattern::new(r"^(?P<id>\d+)-(?P<kind>\w+)$").unwrap()
}

fn renames(name: &str, cases: &[(&str, &str)]) -> FieldRenames {
    FieldRenames {
        name: name.to_string(),
        cases: cases.iter().map(|(p, t)| (p.to_string(), t.to_string())).collect(),
    }
}

fn kind_rules() -> Option<Vec<FieldRules>> {
    build_renames(
        Some(vec![renames("kind", &[("^report$", "reports"), ("^invoice$", "invoices")])]),
        None,
    )
    .unwrap()
}

#[test]
fn template_resolves_to_literal_text() {
    let text = resolve_text(&capture(), "items/${kind}/${id}.dat", &None, "42-report").unwrap();
    assert_eq!(text, "items/report/42.dat");
}

#[test]
fn search_regex_carries_resolved_text() {
    let re = build_search_regex(&capture(), "items/${kind}/${id}.dat", &None, "42-report").unwrap();
    assert_eq!(re.as_str(), "items/report/42.dat");
    assert!(re.is_match("/srv/items/report/42xdat"));
    assert!(!re.is_match("/srv/items/report/43.dat"));
}

#[test]
fn rewrite_rule_replaces_captured_value() {
    let text = resolve_text(&capture(), "items/${kind}/${id}.dat", &kind_rules(), "7-report").unwrap();
    assert_eq!(text, "items/reports/7.dat");
}

#[test]
fn second_rule_applies_to_its_own_value() {
    let text = resolve_text(&capture(), "items/${kind}/${id}.dat", &kind_rules(), "7-invoice").unwrap();
    assert_eq!(text, "items/invoices/7.dat");
}

#[test]
fn value_without_matching_rule_is_kept() {
    let text = resolve_text(&capture(), "items/${kind}/${id}.dat", &kind_rules(), "7-memo").unwrap();
    assert_eq!(text, "items/memo/7.dat");
}

#[test]
fn last_matching_rule_wins() {
    let rules = build_renames(
        Some(vec![renames("kind", &[("^rep", "first"), ("ort$", "second"), ("^nothing$", "third")])]),
        None,
    )
    .unwrap();
    let text = resolve_text(&capture(), "${kind}", &rules, "1-report").unwrap();
    assert_eq!(text, "repsecond");
    let rules = build_renames(Some(vec![renames("kind", &[("ort$", "second"), ("^rep", "first")])]), None)
        .unwrap();
    let text = resolve_text(&capture(), "${kind}", &rules, "1-report").unwrap();
    assert_eq!(text, "firstort");
}

#[test]
fn replacement_is_expanded_by_the_engine() {
    let rules = build_renames(
        Some(vec![renames("kind", &[("^(?P<head>re)(?P<tail>\\w+)$", "${tail}-${head}")])]),
        None,
    )
    .unwrap();
    let text = resolve_text(&capture(), "x/${kind}", &rules, "1-report").unwrap();
    assert_eq!(text, "x/port-re");
}

#[test]
fn replacement_touches_only_the_matched_part() {
    let rules = build_renames(Some(vec![renames("kind", &[("o", "0")])]), None).unwrap();
    let cases = &rules.as_ref().unwrap()[0].cases;
    assert_eq!(rewrite_value(cases, "foo-boo"), Some("f00-b00".to_string()));
    assert_eq!(rewrite_value(cases, "bar"), None);
}

#[test]
fn bare_placeholder_takes_longest_name() {
    let text = resolve_text(&capture(), "$kind/$id.dat", &None, "42-report").unwrap();
    assert_eq!(text, "report/42.dat");
    let text = resolve_text(&capture(), "$kinds/$id", &None, "42-report").unwrap();
    assert_eq!(text, "${kinds}/42");
}

#[test]
fn unknown_field_stays_as_braced_placeholder() {
    let text = resolve_text(&capture(), "a/${nope}/$other/${id}", &None, "42-report").unwrap();
    assert_eq!(text, "a/${nope}/${other}/42");
}

#[test]
fn dollar_without_name_is_plain_text() {
    let text = resolve_text(&capture(), "a$/${/${}/${id/$-${id}$", &None, "42-report").unwrap();
    assert_eq!(text, "a$/${/${}/${id/$-42$");
}

#[test]
fn non_ascii_text_is_kept() {
    let re = Pattern::new(r"^(?P<w>\w+)$").unwrap();
    let text = resolve_text(&re, "é/${w}/ü", &None, "naïve").unwrap();
    assert_eq!(text, "é/naïve/ü");
}

#[test]
fn empty_template_resolves_to_empty_text() {
    let text = resolve_text(&capture(), "", &None, "42-report").unwrap();
    assert_eq!(text, "");
}

#[test]
fn optional_group_that_took_no_part_counts_as_absent() {
    let re = Pattern::new(r"^(?P<a>x)?(?P<b>y)$").unwrap();
    let text = resolve_text(&re, "${a}-${b}", &None, "y").unwrap();
    assert_eq!(text, "${a}-y");
}

#[test]
fn key_that_does_not_match_is_no_match() {
    let r = resolve_text(&capture(), "items/${kind}/${id}.dat", &None, "report");
    assert!(matches!(r, Err(ResolveError::NoMatch)));
    let r = build_search_regex(&capture(), "items/${kind}/${id}.dat", &kind_rules(), "report-42");
    assert!(matches!(r, Err(ResolveError::NoMatch)));
}

#[test]
fn malformed_resolved_text_is_bad_pattern() {
    let r = build_search_regex(&capture(), "(${kind}", &None, "42-report");
    match r {
        Err(ResolveError::BadPattern(p)) => assert_eq!(p, "(report"),
        other => panic!("unexpected outcome: {:?}", other.map(|re| re.as_str().to_string())),
    }
}

#[test]
fn substitution_prefers_rewritten_then_captured_then_placeholder() {
    assert_eq!(choose_substitution("k", Some("v".to_string()), Some("r".to_string())), "r");
    assert_eq!(choose_substitution("k", Some("v".to_string()), None), "v");
    assert_eq!(choose_substitution("k", None, None), "${k}");
    assert_eq!(choose_substitution("k", None, Some("r".to_string())), "${k}");
}

#[test]
fn absent_or_empty_renames_give_no_rules() {
    assert!(build_renames(None, None).unwrap().is_none());
    assert!(build_renames(Some(vec![]), None).unwrap().is_none());
    let allow = vec!["kind"];
    assert!(build_renames(None, Some(&allow)).unwrap().is_none());
}

#[test]
fn rules_keep_declaration_order() {
    let rules = build_renames(
        Some(vec![
            renames("kind", &[("^a$", "1"), ("^b$", "2")]),
            renames("id", &[("^c$", "3")]),
        ]),
        None,
    )
    .unwrap()
    .unwrap();
    assert_eq!(rules.len(), 2);
    assert_eq!(rules[0].name, "kind");
    assert_eq!(rules[0].cases.len(), 2);
    assert_eq!(rules[0].cases[0].matcher.as_str(), "^a$");
    assert_eq!(rules[0].cases[0].replacement, "1");
    assert_eq!(rules[0].cases[1].matcher.as_str(), "^b$");
    assert_eq!(rules[0].cases[1].replacement, "2");
    assert_eq!(rules[1].name, "id");
    assert_eq!(rules[1].cases[0].matcher.as_str(), "^c$");
}

#[test]
fn allow_list_drops_other_fields() {
    let allow = vec!["id", "other"];
    let rules = build_renames(
        Some(vec![renames("kind", &[("^a$", "1")]), renames("id", &[("^c$", "3")])]),
        Some(&allow),
    )
    .unwrap()
    .unwrap();
    assert_eq!(rules.len(), 1);
    assert_eq!(rules[0].name, "id");
    assert_eq!(rules[0].cases[0].matcher.as_str(), "^c$");
    let none_allowed: Vec<&str> = vec![];
    let rules = build_renames(Some(vec![renames("kind", &[("^a$", "1")])]), Some(&none_allowed))
        .unwrap()
        .unwrap();
    assert!(rules.is_empty());
}

#[test]
fn malformed_pattern_of_a_dropped_field_is_refused() {
    let allow = vec!["id"];
    let r = build_renames(
        Some(vec![renames("kind", &[("(", "broken")]), renames("id", &[("^c$", "3")])]),
        Some(&allow),
    );
    match r {
        Err(ConfigError::BadPattern(p)) => assert_eq!(p, "("),
        Ok(_) => panic!("a malformed pattern was accepted"),
    }
    let none_allowed: Vec<&str> = vec![];
    let r = build_renames(Some(vec![renames("kind", &[("^a$", "1"), ("[", "2")])]), Some(&none_allowed));
    match r {
        Err(ConfigError::BadPattern(p)) => assert_eq!(p, "["),
        Ok(_) => panic!("a malformed pattern was accepted"),
    }
}

#[test]
fn first_declaration_of_a_field_counts() {
    let rules = build_renames(
        Some(vec![
            renames("kind", &[("^report$", "first")]),
            renames("id", &[("^7$", "seven")]),
            renames("kind", &[("^report$", "second")]),
        ]),
        None,
    )
    .unwrap();
    {
        let fields = rules.as_ref().unwrap();
        assert_eq!(fields.len(), 2);
        assert_eq!(fields[0].name, "kind");
        assert_eq!(fields[0].cases[0].replacement, "first");
        assert_eq!(fields[1].name, "id");
    }
    let text = resolve_text(&capture(), "${kind}/${id}", &rules, "7-report").unwrap();
    assert_eq!(text, "first/seven");
    let r = build_renames(
        Some(vec![renames("kind", &[("^a$", "1")]), renames("kind", &[("(", "2")])]),
        None,
    );
    assert!(matches!(r, Err(ConfigError::BadPattern(_))));
}

#[test]
fn malformed_rule_pattern_is_refused() {
    let r = build_renames(Some(vec![renames("kind", &[("^ok$", "1"), ("(", "2")])]), None);
    match r {
        Err(ConfigError::BadPattern(p)) => assert_eq!(p, "("),
        Ok(_) => panic!("a malformed pattern was accepted"),
    }
}

#[test]
fn error_message_names_the_pattern() {
    let e = ConfigError::BadPattern("(".to_string());
    assert_eq!(e.message(), "malformed pattern: (");
}

#[test]
fn rules_are_found_by_field_name() {
    let rules = build_renames(
        Some(vec![renames("kind", &[("^a$", "1")]), renames("id", &[("^c$", "3")])]),
        None,
    )
    .unwrap()
    .unwrap();
    assert_eq!(find_rules(&rules, "id"), Some(1));
    assert_eq!(find_rules(&rules, "kind"), Some(0));
    assert_eq!(find_rules(&rules, "none"), None);
}

#[test]
fn pattern_remembers_its_text() {
    let p = Pattern::new(r"^a(?P<n>\d+)$").unwrap();
    assert_eq!(p.as_str(), r"^a(?P<n>\d+)$");
    assert!(p.is_match("a12"));
    assert!(!p.is_match("b12"));
    assert_eq!(p.capture("a12", "n"), Some("12".to_string()));
    assert_eq!(p.capture("a12", "m"), None);
    assert_eq!(p.capture("b12", "n"), None);
    assert_eq!(p.replace_all("a12", "<${n}>"), "<12>");
    assert_eq!(p.replace_all("b12", "<${n}>"), "b12");
    match Pattern::new("a(") {
        Err(ConfigError::BadPattern(text)) => assert_eq!(text, "a("),
        Ok(_) => panic!("a malformed pattern was accepted"),
    }
}

#[test]
fn texts_are_compared_by_content() {
    assert!(same_text("abc", "abc"));
    assert!(!same_text("abc", "abd"));
    assert!(!same_text("abc", "ab"));
    assert!(same_text("", ""));
}
