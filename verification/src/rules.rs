//! Rewrite rules: per captured field, an ordered list of (pattern, replacement)
//! pairs that may replace the captured value before it is put into a template.

use crate::error::ConfigError;
use crate::engine::{compiles, has_match, replaced, text_of};
use crate::pattern::Pattern;
use vstd::prelude::*;

verus! {

/// One rule as text: the pattern it tests a value with, and its replacement.
pub type RuleText = (Seq<char>, Seq<char>);

/// The rules of one field as text: the field's name and its rules in order.
pub type FieldText = (Seq<char>, Seq<RuleText>);

/// The rules of one field as they are declared, before any pattern is compiled.
#[derive(Debug)]
pub struct FieldRenames {
    pub name: String,
    pub cases: Vec<(String, String)>,
}

impl View for FieldRenames {
    type V = FieldText;

    open spec fn view(&self) -> FieldText {
        (self.name@, case_texts(self.cases@))
    }
}

/// A compiled rule.
#[derive(Debug)]
pub struct RewriteRule {
    pub matcher: Pattern,
    pub replacement: String,
}

impl View for RewriteRule {
    type V = RuleText;

    open spec fn view(&self) -> RuleText {
        (self.matcher.text(), self.replacement@)
    }
}

/// The compiled rules of one field.
#[derive(Debug)]
pub struct FieldRules {
    pub name: String,
    pub cases: Vec<RewriteRule>,
}

impl View for FieldRules {
    type V = FieldText;

    open spec fn view(&self) -> FieldText {
        (self.name@, rule_texts(self.cases@))
    }
}

/// The texts of a list of strings.
pub open spec fn str_texts(v: Seq<&str>) -> Seq<Seq<char>> {
    v.map_values(|s: &str| s@)
}

/// Declared rules as text.
pub open spec fn case_texts(cases: Seq<(String, String)>) -> Seq<RuleText> {
    cases.map_values(|c: (String, String)| (c.0@, c.1@))
}

/// Compiled rules as text.
pub open spec fn rule_texts(cases: Seq<RewriteRule>) -> Seq<RuleText> {
    cases.map_values(|r: RewriteRule| r@)
}

/// Declared fields as text.
pub open spec fn declared_texts(fields: Seq<FieldRenames>) -> Seq<FieldText> {
    fields.map_values(|f: FieldRenames| f@)
}

/// Compiled fields as text.
pub open spec fn field_texts(fields: Seq<FieldRules>) -> Seq<FieldText> {
    fields.map_values(|f: FieldRules| f@)
}

/// The declared rules as text; an absent declaration holds no rules.
pub open spec fn declared(renames: Option<Vec<FieldRenames>>) -> Seq<FieldText> {
    match renames {
        Some(v) => declared_texts(v@),
        None => Seq::empty(),
    }
}

/// The compiled rules as text; an absent rule set holds no rules.
pub open spec fn rule_table(rules: Option<Vec<FieldRules>>) -> Seq<FieldText> {
    match rules {
        Some(v) => field_texts(v@),
        None => Seq::empty(),
    }
}

/// The allow-list as text.
pub open spec fn allow_list(valid_vars: Option<&Vec<&str>>) -> Option<Seq<Seq<char>>> {
    match valid_vars {
        Some(v) => Some(str_texts(v@)),
        None => None,
    }
}

/// Whether a field name passes the allow-list; without a list every name does.
pub open spec fn allowed(name: Seq<char>, valid: Option<Seq<Seq<char>>>) -> bool {
    match valid {
        Some(v) => v.contains(name),
        None => true,
    }
}

/// Whether the table holds a field called `name`.
pub open spec fn has_field(table: Seq<FieldText>, name: Seq<char>) -> bool {
    exists|k: int| 0 <= k < table.len() && (#[trigger] table[k]).0 == name
}

/// Whether no name stands twice in the table.
pub open spec fn names_distinct(table: Seq<FieldText>) -> bool {
    forall|a: int, b: int| 0 <= a < b < table.len() ==> (#[trigger] table[a]).0 != (#[trigger] table[b]).0
}

/// Of the first `n` declared fields, those that pass the allow-list, in order.
/// The declaration stands for a mapping: of several fields declared under one
/// name the first counts, and the later ones are left out.
pub open spec fn kept(fields: Seq<FieldText>, valid: Option<Seq<Seq<char>>>, n: int) -> Seq<FieldText>
    decreases n,
{
    if n <= 0 {
        Seq::empty()
    } else if allowed(fields[n - 1].0, valid) && !has_field(kept(fields, valid, n - 1), fields[n - 1].0) {
        kept(fields, valid, n - 1).push(fields[n - 1])
    } else {
        kept(fields, valid, n - 1)
    }
}

/// The rules that a declaration stands for when no allow-list is given.
pub open spec fn effective(fields: Seq<FieldText>) -> Seq<FieldText> {
    kept(fields, None, fields.len() as int)
}

/// Whether every pattern of the rules compiles.
pub open spec fn cases_compile(cases: Seq<RuleText>) -> bool {
    forall|j: int| 0 <= j < cases.len() ==> compiles(#[trigger] cases[j].0)
}

/// Whether every pattern of every field compiles.
pub open spec fn all_compile(fields: Seq<FieldText>) -> bool {
    forall|i: int| 0 <= i < fields.len() ==> cases_compile(#[trigger] fields[i].1)
}

/// Whether `p` is the pattern of one of the rules.
pub open spec fn declares(fields: Seq<FieldText>, p: Seq<char>) -> bool {
    exists|i: int, j: int| 0 <= i < fields.len() && 0 <= j < fields[i].1.len() && #[trigger] fields[i].1[j].0 == p
}

/// The rules of the first field called `name` among those from index `from` on.
pub open spec fn rules_for(table: Seq<FieldText>, name: Seq<char>, from: int) -> Option<Seq<RuleText>>
    decreases table.len() - from,
{
    if from < 0 || from >= table.len() {
        None
    } else if table[from].0 == name {
        Some(table[from].1)
    } else {
        rules_for(table, name, from + 1)
    }
}

/// What the first `n` rules make of `value`: the replacement of the last rule
/// among them whose pattern matches the value, or `None` if none matches.
pub open spec fn rewritten(cases: Seq<RuleText>, value: Seq<char>, n: int) -> Option<Seq<char>>
    decreases n,
{
    if n <= 0 {
        None
    } else if has_match(cases[n - 1].0, value) {
        Some(replaced(cases[n - 1].0, value, cases[n - 1].1))
    } else {
        rewritten(cases, value, n - 1)
    }
}

/// Whether two strings hold the same text.
pub fn same_text(a: &str, b: &str) -> (r: bool)
    ensures
        r == (a@ == b@),
{
    String::from_str(a) == String::from_str(b)
}

/// Whether `name` is on the allow-list.
fn is_allowed(name: &str, valid_vars: Option<&Vec<&str>>) -> (r: bool)
    ensures
        r == allowed(name@, allow_list(valid_vars)),
{
    match valid_vars {
        None => true,
        Some(v) => {
            let ghost names = str_texts(v@);
            let mut i: usize = 0;
            while i < v.len()
                invariant
                    i <= v.len(),
                    valid_vars == Some(v),
                    names == str_texts(v@),
                    forall|k: int| 0 <= k < i ==> names[k] != name@,
                decreases v.len() - i,
            {
                if same_text(v[i], name) {
                    assert(names[i as int] == name@);
                    assert(names.contains(name@));
                    return true;
                }
                i += 1;
            }
            false
        },
    }
}

/// Compiles the rules of one field, in order.
fn compile_cases(cases: &Vec<(String, String)>) -> (r: Result<Vec<RewriteRule>, ConfigError>)
    ensures
        ({
            let texts = case_texts(cases@);
            match r {
                Ok(compiled) => cases_compile(texts) && rule_texts(compiled@) == texts,
                Err(e) => !compiles(e.pattern()) && exists|j: int| 0 <= j < texts.len() && #[trigger] texts[j].0 == e.pattern(),
            }
        }),
{
    let ghost texts = case_texts(cases@);
    let mut compiled: Vec<RewriteRule> = Vec::new();
    let mut j: usize = 0;
    while j < cases.len()
        invariant
            j <= cases.len(),
            texts == case_texts(cases@),
            compiled.len() == j,
            forall|k: int| 0 <= k < j ==> compiles(#[trigger] texts[k].0),
            forall|k: int| 0 <= k < j ==> (#[trigger] compiled[k])@ == texts[k],
        decreases cases.len() - j,
    {
        let case = &cases[j];
        match Pattern::new(case.0.as_str()) {
            Ok(matcher) => {
                compiled.push(RewriteRule { matcher, replacement: case.1.clone() });
            },
            Err(e) => {
                assert(texts[j as int].0 == case.0@);
                return Err(e);
            },
        }
        j += 1;
    }
    assert(rule_texts(compiled@) =~= texts);
    Ok(compiled)
}

/// Compiles the declared rewrite rules.
///
/// An absent or empty declaration gives no rule set. Otherwise the patterns of
/// every declared field are compiled, and the fields that pass the allow-list
/// are kept in order, each with its compiled rules; of several fields declared
/// under one name only the first is kept, so that no name stands twice in the
/// rule set. The build fails exactly
/// when a declared pattern does not compile, whether or not its field passes
/// the allow-list, and the error then carries such a pattern.
pub fn build_renames(renames: Option<Vec<FieldRenames>>, valid_vars: Option<&Vec<&str>>) -> (r: Result<
    Option<Vec<FieldRules>>,
    ConfigError,
>)
    ensures
        ({
            let fields = declared(renames);
            let chosen = kept(fields, allow_list(valid_vars), fields.len() as int);
            match r {
                Ok(None) => fields.len() == 0,
                Ok(Some(rules)) => fields.len() > 0 && all_compile(fields) && rule_table(Some(rules)) == chosen
                    && names_distinct(chosen),
                Err(e) => fields.len() > 0 && !compiles(e.pattern()) && declares(fields, e.pattern()),
            }
        }),
{
    compile_renames(&renames, valid_vars)
}

/// Compiles the declared rewrite rules, leaving the declaration in place.
pub fn compile_renames(renames: &Option<Vec<FieldRenames>>, valid_vars: Option<&Vec<&str>>) -> (r: Result<
    Option<Vec<FieldRules>>,
    ConfigError,
>)
    ensures
        ({
            let fields = declared(*renames);
            let chosen = kept(fields, allow_list(valid_vars), fields.len() as int);
            match r {
                Ok(None) => fields.len() == 0,
                Ok(Some(rules)) => fields.len() > 0 && all_compile(fields) && rule_table(Some(rules)) == chosen
                    && names_distinct(chosen),
                Err(e) => fields.len() > 0 && !compiles(e.pattern()) && declares(fields, e.pattern()),
            }
        }),
{
    let fields = match renames {
        None => { return Ok(None); },
        Some(fields) => fields,
    };
    if fields.len() == 0 {
        return Ok(None);
    }
    let ghost texts = declared_texts(fields@);
    let ghost valid = allow_list(valid_vars);
    let mut rules: Vec<FieldRules> = Vec::new();
    let mut i: usize = 0;
    while i < fields.len()
        invariant
            i <= fields.len(),
            *renames == Some(*fields),
            texts == declared_texts(fields@),
            valid == allow_list(valid_vars),
            field_texts(rules@) == kept(texts, valid, i as int),
            names_distinct(kept(texts, valid, i as int)),
            forall|k: int| 0 <= k < i ==> cases_compile(#[trigger] texts[k].1),
        decreases fields.len() - i,
    {
        let field = &fields[i];
        let ghost before = kept(texts, valid, i as int);
        assert(texts[i as int] == field@);
        match compile_cases(&field.cases) {
            Ok(cases) => {
                let earlier = find_rules(&rules, field.name.as_str());
                proof {
                    assert(rule_table(Some(rules)) == before);
                    if let Some(k) = earlier {
                        assert(before[k as int] == rules[k as int]@);
                        assert(has_field(before, field@.0));
                    }
                }
                if is_allowed(field.name.as_str(), valid_vars) && earlier.is_none() {
                    rules.push(FieldRules { name: field.name.clone(), cases });
                    assert(field_texts(rules@) =~= before.push(field@));
                }
            },
            Err(e) => {
                proof {
                    let j = choose|j: int| 0 <= j < field@.1.len() && #[trigger] field@.1[j].0 == e.pattern();
                    assert(texts[i as int].1[j].0 == e.pattern());
                    assert(declares(texts, e.pattern()));
                    assert(declared(*renames) == texts);
                }
                return Err(e);
            },
        }
        i += 1;
    }
    Ok(Some(rules))
}

/// Applies the rules of one field to a captured value: the replacement of the
/// last rule whose pattern matches, or `None` if no rule matches.
pub fn rewrite_value(cases: &Vec<RewriteRule>, value: &str) -> (r: Option<String>)
    ensures
        text_of(r) == rewritten(rule_texts(cases@), value@, cases.len() as int),
{
    let ghost texts = rule_texts(cases@);
    let mut placer: Option<String> = None;
    let mut i: usize = 0;
    while i < cases.len()
        invariant
            i <= cases.len(),
            texts == rule_texts(cases@),
            text_of(placer) == rewritten(texts, value@, i as int),
        decreases cases.len() - i,
    {
        let case = &cases[i];
        assert(texts[i as int] == case@);
        if case.matcher.is_match(value) {
            placer = Some(case.matcher.replace_all(value, case.replacement.as_str()));
        }
        i += 1;
    }
    placer
}

/// Looks up the rules of a field: the position of the first field of that name.
pub fn find_rules(rules: &Vec<FieldRules>, name: &str) -> (r: Option<usize>)
    ensures
        match r {
            Some(i) => i < rules.len() && rules[i as int].name@ == name@ && rules_for(
                rule_table(Some(*rules)),
                name@,
                0,
            ) == Some(rules[i as int]@.1),
            None => !has_field(rule_table(Some(*rules)), name@) && rules_for(rule_table(Some(*rules)), name@, 0)
                is None,
        },
{
    let ghost table = rule_table(Some(*rules));
    let mut i: usize = 0;
    while i < rules.len()
        invariant
            i <= rules.len(),
            table == field_texts(rules@),
            rules_for(table, name@, 0) == rules_for(table, name@, i as int),
            forall|k: int| 0 <= k < i ==> (#[trigger] table[k]).0 != name@,
        decreases rules.len() - i,
    {
        assert(table[i as int] == rules[i as int]@);
        if same_text(rules[i].name.as_str(), name) {
            return Some(i);
        }
        i += 1;
    }
    None
}

/// A declaration in which no name stands twice is kept whole when no
/// allow-list is given.
pub proof fn lemma_kept_all(fields: Seq<FieldText>, n: int)
    requires
        0 <= n <= fields.len(),
        names_distinct(fields),
    ensures
        kept(fields, None, n) == fields.take(n),
    decreases n,
{
    if n > 0 {
        lemma_kept_all(fields, n - 1);
        assert forall|k: int| 0 <= k < fields.take(n - 1).len() implies (#[trigger] fields.take(n - 1)[k]).0
            != fields[n - 1].0 by {
            assert(fields.take(n - 1)[k] == fields[k]);
        }
        assert(fields.take(n - 1).push(fields[n - 1]) =~= fields.take(n));
    } else {
        assert(fields.take(n) =~= Seq::<FieldText>::empty());
    }
}

/// A declaration in which no name stands twice stands for itself.
pub proof fn lemma_effective_of_distinct(fields: Seq<FieldText>)
    requires
        names_distinct(fields),
    ensures
        effective(fields) == fields,
{
    lemma_kept_all(fields, fields.len() as int);
    assert(fields.take(fields.len() as int) =~= fields);
}

/// A lookup finds nothing exactly when no field from `from` on bears the name.
pub proof fn lemma_rules_for_none(table: Seq<FieldText>, name: Seq<char>, from: int)
    requires
        0 <= from <= table.len(),
    ensures
        rules_for(table, name, from) is None <==> forall|k: int|
            from <= k < table.len() ==> (#[trigger] table[k]).0 != name,
    decreases table.len() - from,
{
    if from < table.len() {
        lemma_rules_for_none(table, name, from + 1);
    }
}

/// A lookup in a table with one more field at its end finds what it found
/// before, and the new field only where it found nothing.
pub proof fn lemma_rules_for_push(table: Seq<FieldText>, field: FieldText, name: Seq<char>, from: int)
    requires
        0 <= from <= table.len(),
    ensures
        rules_for(table.push(field), name, from) == (match rules_for(table, name, from) {
            Some(cases) => Some(cases),
            None => if field.0 == name {
                Some(field.1)
            } else {
                None
            },
        }),
    decreases table.len() - from,
{
    let longer = table.push(field);
    if from < table.len() {
        assert(longer[from] == table[from]);
        lemma_rules_for_push(table, field, name, from + 1);
    } else {
        assert(longer[from] == field);
        assert(rules_for(longer, name, from + 1) is None);
    }
}

/// Leaving out the later fields of a name changes no lookup: the rules found
/// for a name in what a declaration stands for are those of the first field
/// declared under that name.
pub proof fn lemma_lookup_unchanged(fields: Seq<FieldText>, name: Seq<char>, n: int)
    requires
        0 <= n <= fields.len(),
    ensures
        rules_for(kept(fields, None, n), name, 0) == rules_for(fields.take(n), name, 0),
    decreases n,
{
    if n > 0 {
        let before = kept(fields, None, n - 1);
        let field = fields[n - 1];
        lemma_lookup_unchanged(fields, name, n - 1);
        assert(fields.take(n - 1).push(field) =~= fields.take(n));
        lemma_rules_for_push(fields.take(n - 1), field, name, 0);
        lemma_rules_for_push(before, field, name, 0);
        lemma_rules_for_none(before, name, 0);
    } else {
        assert(fields.take(n) =~= Seq::<FieldText>::empty());
    }
}

/// What is kept of a declaration holds no name twice.
pub proof fn lemma_kept_distinct(fields: Seq<FieldText>, valid: Option<Seq<Seq<char>>>, n: int)
    requires
        0 <= n <= fields.len(),
    ensures
        names_distinct(kept(fields, valid, n)),
    decreases n,
{
    if n > 0 {
        lemma_kept_distinct(fields, valid, n - 1);
    }
}

/// Among the rules of one field the last one that matches decides: if rule `k`
/// matches the value and no later rule does, the value is rewritten to the
/// replacement of rule `k`, whatever the earlier rules would have made of it.
pub proof fn lemma_last_match_wins(cases: Seq<RuleText>, value: Seq<char>, k: int, n: int)
    requires
        0 <= k < n <= cases.len(),
        has_match(cases[k].0, value),
        forall|j: int| k < j < n ==> !has_match(#[trigger] cases[j].0, value),
    ensures
        rewritten(cases, value, n) == Some(replaced(cases[k].0, value, cases[k].1)),
    decreases n,
{
    if n - 1 > k {
        assert(!has_match(cases[n - 1].0, value));
        lemma_last_match_wins(cases, value, k, n - 1);
    }
}

/// Where no rule matches the value, the rules leave it alone.
pub proof fn lemma_no_match_no_rewrite(cases: Seq<RuleText>, value: Seq<char>, n: int)
    requires
        0 <= n <= cases.len(),
        forall|j: int| 0 <= j < n ==> !has_match(#[trigger] cases[j].0, value),
    ensures
        rewritten(cases, value, n) is None,
    decreases n,
{
    if n > 0 {
        assert(!has_match(cases[n - 1].0, value));
        lemma_no_match_no_rewrite(cases, value, n - 1);
    }
}

} // verus!
