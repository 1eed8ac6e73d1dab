//! Search templates: text with placeholders `$name` and `${name}`, each of
//! which stands for a field captured from the search key.
//!
//! A name is a run of word characters, as the pattern engine understands `\w`.
//! A dollar sign that no name follows is ordinary text.

use crate::engine::{captured, compiles, has_match, replaced, text_of};
use crate::error::{ConfigError, ResolveError};
use crate::pattern::Pattern;
use crate::rules::{
    find_rules, lemma_last_match_wins, rewrite_value, rewritten, rule_table, rules_for, FieldRules, FieldText,
};
use vstd::prelude::*;

verus! {

/// The pattern that decides which characters may stand in a name.
pub open spec fn word_class() -> Seq<char> {
    seq!['\\', 'w']
}

/// Whether a character may stand in a placeholder's name.
pub open spec fn is_word(c: char) -> bool {
    has_match(word_class(), seq![c])
}

/// The length of the run of word characters that starts at position `i`.
pub open spec fn word_run(t: Seq<char>, i: int) -> nat
    decreases t.len() - i,
{
    if 0 <= i < t.len() && is_word(t[i]) {
        1 + word_run(t, i + 1)
    } else {
        0
    }
}

/// The placeholder that starts at position `i`, if one does: its name and the
/// number of characters it takes up. The bare form takes the longest run of
/// word characters after the dollar sign; the braced form is tried only where
/// no word character follows the dollar sign.
pub open spec fn placeholder_at(t: Seq<char>, i: int) -> Option<(Seq<char>, int)> {
    if 0 <= i < t.len() && t[i] == '$' {
        let n = word_run(t, i + 1) as int;
        let m = word_run(t, i + 2) as int;
        if n > 0 && i + 1 + n <= t.len() {
            Some((t.subrange(i + 1, i + 1 + n), 1 + n))
        } else if i + 1 < t.len() && t[i + 1] == '{' && m > 0 && i + 2 + m < t.len() && t[i + 2 + m] == '}' {
            Some((t.subrange(i + 2, i + 2 + m), 3 + m))
        } else {
            None
        }
    } else {
        None
    }
}

/// A placeholder written out in its braced form.
pub open spec fn braced(name: Seq<char>) -> Seq<char> {
    seq!['$', '{'] + name + seq!['}']
}

/// What is put in a placeholder's place, given the value captured for its name
/// and what the field's rules made of that value: the rewritten value if there
/// is one, else the captured value, else the placeholder itself.
pub open spec fn chosen_text(name: Seq<char>, value: Option<Seq<char>>, rewritten: Option<Seq<char>>) -> Seq<char> {
    match (value, rewritten) {
        (Some(_), Some(r)) => r,
        (Some(v), None) => v,
        (None, _) => braced(name),
    }
}

/// What the rules of the field `name` make of a captured value: `None` where
/// nothing was captured, the field has no rules, or none of its rules matches.
pub open spec fn rule_outcome(table: Seq<FieldText>, name: Seq<char>, value: Option<Seq<char>>) -> Option<Seq<char>> {
    match (value, rules_for(table, name, 0)) {
        (Some(v), Some(cases)) => rewritten(cases, v, cases.len() as int),
        _ => None,
    }
}

/// The text that replaces the placeholder `name` when `key` is searched for.
pub open spec fn substitution(pattern: Seq<char>, table: Seq<FieldText>, key: Seq<char>, name: Seq<char>) -> Seq<char> {
    let value = captured(pattern, key, name);
    chosen_text(name, value, rule_outcome(table, name, value))
}

/// The template from position `i` on, with every placeholder replaced.
pub open spec fn expanded_from(
    t: Seq<char>,
    i: int,
    pattern: Seq<char>,
    table: Seq<FieldText>,
    key: Seq<char>,
) -> Seq<char>
    decreases t.len() - i,
{
    if i < 0 || i >= t.len() {
        Seq::empty()
    } else {
        match placeholder_at(t, i) {
            Some((name, len)) => substitution(pattern, table, key, name) + expanded_from(
                t,
                i + len,
                pattern,
                table,
                key,
            ),
            None => seq![t[i]] + expanded_from(t, i + 1, pattern, table, key),
        }
    }
}

/// The text that a template resolves to for one key: every placeholder
/// replaced, everything else kept.
pub open spec fn resolved_text(pattern: Seq<char>, template: Seq<char>, table: Seq<FieldText>, key: Seq<char>) -> Seq<char> {
    expanded_from(template, 0, pattern, table, key)
}

/// A run of word characters ends within the text.
pub proof fn lemma_word_run_bounded(t: Seq<char>, i: int)
    requires
        0 <= i <= t.len(),
    ensures
        i + word_run(t, i) <= t.len(),
    decreases t.len() - i,
{
    if i < t.len() && is_word(t[i]) {
        lemma_word_run_bounded(t, i + 1);
    }
}

/// Measures the run of word characters that starts at position `i`.
fn measure_word_run(word: &Pattern, t: &str, len: usize, i: usize) -> (n: usize)
    requires
        word.text() == word_class(),
        len == t@.len(),
        i <= len,
    ensures
        n == word_run(t@, i as int),
        i + n <= len,
{
    let mut j: usize = i;
    while j < len
        invariant
            i <= j <= len,
            len == t@.len(),
            word.text() == word_class(),
            word_run(t@, i as int) == (j - i) + word_run(t@, j as int),
        decreases len - j,
    {
        let one = t.substring_char(j, j + 1);
        assert(one@ =~= seq![t@[j as int]]);
        if !word.is_match(one) {
            return j - i;
        }
        j += 1;
    }
    j - i
}

/// Reads the placeholder that starts at position `i`, if one does: its name
/// and the number of characters it takes up.
fn scan_placeholder<'a>(word: &Pattern, t: &'a str, len: usize, i: usize) -> (r: Option<(&'a str, usize)>)
    requires
        word.text() == word_class(),
        len == t@.len(),
        i < len,
    ensures
        match r {
            Some((name, k)) => placeholder_at(t@, i as int) == Some((name@, k as int)) && 0 < k && i + k <= len,
            None => placeholder_at(t@, i as int) is None,
        },
{
    if t.get_char(i) != '$' {
        return None;
    }
    let n = measure_word_run(word, t, len, i + 1);
    if n > 0 {
        return Some((t.substring_char(i + 1, i + 1 + n), 1 + n));
    }
    if i + 1 < len && t.get_char(i + 1) == '{' {
        let m = measure_word_run(word, t, len, i + 2);
        if m > 0 && i + 2 + m < len && t.get_char(i + 2 + m) == '}' {
            return Some((t.substring_char(i + 2, i + 2 + m), 3 + m));
        }
    }
    None
}

/// Chooses what is put in a placeholder's place: the rewritten value if the
/// field was captured and a rule matched, else the captured value, else the
/// placeholder in its braced form.
pub fn choose_substitution(name: &str, value: Option<String>, rewritten: Option<String>) -> (r: String)
    ensures
        r@ == chosen_text(name@, text_of(value), text_of(rewritten)),
{
    match value {
        Some(v) => match rewritten {
            Some(r) => r,
            None => v,
        },
        None => {
            proof {
                reveal_strlit("${");
                reveal_strlit("}");
            }
            let mut s = String::from_str("${");
            s.append(name);
            s.append("}");
            assert(s@ =~= braced(name@));
            s
        },
    }
}

/// Computes the text that replaces the placeholder `name` for one key.
fn substitute(pattern: &Pattern, rules: &Option<Vec<FieldRules>>, key: &str, name: &str) -> (r: String)
    ensures
        r@ == substitution(pattern.text(), rule_table(*rules), key@, name@),
{
    let value = pattern.capture(key, name);
    let rewritten = match (&value, rules) {
        (Some(v), Some(fields)) => match find_rules(fields, name) {
            Some(k) => rewrite_value(&fields[k].cases, v.as_str()),
            None => None,
        },
        _ => None,
    };
    choose_substitution(name, value, rewritten)
}

/// Resolves a template for one key, given the pattern that recognises word
/// characters: every placeholder is replaced by its substitution, and all other
/// text is kept as it stands.
fn expand_template(
    word: &Pattern,
    parse_pattern: &Pattern,
    search_template: &str,
    renames: &Option<Vec<FieldRules>>,
    input: &str,
) -> (out: String)
    requires
        word.text() == word_class(),
    ensures
        out@ == resolved_text(parse_pattern.text(), search_template@, rule_table(*renames), input@),
{
    let len = search_template.unicode_len();
    let ghost t = search_template@;
    let ghost p = parse_pattern.text();
    let ghost table = rule_table(*renames);
    let mut out = String::new();
    let mut i: usize = 0;
    while i < len
        invariant
            i <= len,
            len == t.len(),
            t == search_template@,
            p == parse_pattern.text(),
            table == rule_table(*renames),
            word.text() == word_class(),
            out@ + expanded_from(t, i as int, p, table, input@) == resolved_text(p, t, table, input@),
        decreases len - i,
    {
        let ghost before = out@;
        match scan_placeholder(word, search_template, len, i) {
            Some((name, k)) => {
                let piece = substitute(parse_pattern, renames, input, name);
                out.append(piece.as_str());
                assert(out@ + expanded_from(t, i + k, p, table, input@) =~= before + expanded_from(
                    t,
                    i as int,
                    p,
                    table,
                    input@,
                ));
                i += k;
            },
            None => {
                let one = search_template.substring_char(i, i + 1);
                assert(one@ =~= seq![t[i as int]]);
                out.append(one);
                assert(out@ + expanded_from(t, i + 1, p, table, input@) =~= before + expanded_from(
                    t,
                    i as int,
                    p,
                    table,
                    input@,
                ));
                i += 1;
            },
        }
    }
    assert(out@ + Seq::<char>::empty() =~= out@);
    out
}

/// Resolves the text of the search pattern for one key.
///
/// Fails with `NoMatch` exactly when the capture pattern does not match the
/// key, and with `BadPattern` only if the engine refuses the word-character
/// class itself.
pub fn resolve_text(
    parse_pattern: &Pattern,
    search_template: &str,
    renames: &Option<Vec<FieldRules>>,
    input: &str,
) -> (r: Result<String, ResolveError>)
    ensures
        match r {
            Ok(text) => has_match(parse_pattern.text(), input@) && compiles(word_class()) && text@
                == resolved_text(parse_pattern.text(), search_template@, rule_table(*renames), input@),
            Err(ResolveError::NoMatch) => !has_match(parse_pattern.text(), input@),
            Err(ResolveError::BadPattern(p)) => has_match(parse_pattern.text(), input@) && !compiles(
                word_class(),
            ) && p@ == word_class(),
        },
{
    if !parse_pattern.is_match(input) {
        return Err(ResolveError::NoMatch);
    }
    proof {
        reveal_strlit("\\w");
        assert("\\w"@ =~= word_class());
    }
    match Pattern::new("\\w") {
        Ok(word) => Ok(expand_template(&word, parse_pattern, search_template, renames, input)),
        Err(ConfigError::BadPattern(p)) => Err(ResolveError::BadPattern(p)),
    }
}

/// Whether a key resolves to a search pattern.
pub open spec fn resolves(pattern: Seq<char>, template: Seq<char>, table: Seq<FieldText>, key: Seq<char>) -> bool {
    has_match(pattern, key) && compiles(word_class()) && compiles(resolved_text(pattern, template, table, key))
}

/// Builds the search pattern for one key: the template is resolved against the
/// fields that the capture pattern takes from the key, and the text that
/// results is compiled.
///
/// Fails with `NoMatch` exactly when the capture pattern does not match the
/// key, and with `BadPattern` exactly when it matches but the engine refuses
/// the text; the error then carries the refused text.
pub fn build_search_regex(
    parse_pattern: &Pattern,
    search_template: &str,
    renames: &Option<Vec<FieldRules>>,
    input: &str,
) -> (r: Result<Pattern, ResolveError>)
    ensures
        match r {
            Ok(re) => resolves(parse_pattern.text(), search_template@, rule_table(*renames), input@)
                && re.text() == resolved_text(
                parse_pattern.text(),
                search_template@,
                rule_table(*renames),
                input@,
            ),
            Err(ResolveError::NoMatch) => !has_match(parse_pattern.text(), input@),
            Err(ResolveError::BadPattern(p)) => has_match(parse_pattern.text(), input@) && !resolves(
                parse_pattern.text(),
                search_template@,
                rule_table(*renames),
                input@,
            ) && !compiles(p@),
        },
{
    match resolve_text(parse_pattern, search_template, renames, input) {
        Ok(text) => match Pattern::new(text.as_str()) {
            Ok(re) => Ok(re),
            Err(ConfigError::BadPattern(p)) => Err(ResolveError::BadPattern(p)),
        },
        Err(e) => Err(e),
    }
}

/// A placeholder ends within its template.
pub proof fn lemma_placeholder_bounded(t: Seq<char>, i: int)
    requires
        placeholder_at(t, i) is Some,
    ensures
        0 < placeholder_at(t, i).unwrap().1 <= t.len() - i,
{
    lemma_word_run_bounded(t, i + 1);
}

/// Without rewrite rules, a placeholder whose field the key's match captured
/// is replaced by exactly the captured text: the template from the placeholder
/// on resolves to that text, followed by what the rest of the template
/// resolves to.
pub proof fn lemma_capture_round_trip(pattern: Seq<char>, template: Seq<char>, key: Seq<char>, i: int)
    requires
        placeholder_at(template, i) is Some,
        captured(pattern, key, placeholder_at(template, i).unwrap().0) is Some,
    ensures
        ({
            let (name, len) = placeholder_at(template, i).unwrap();
            let value = captured(pattern, key, name).unwrap();
            &&& substitution(pattern, Seq::empty(), key, name) == value
            &&& expanded_from(template, i, pattern, Seq::empty(), key) == value + expanded_from(
                template,
                i + len,
                pattern,
                Seq::empty(),
                key,
            )
        }),
{
    lemma_placeholder_bounded(template, i);
}

/// Text that starts no placeholder is kept as it stands.
pub proof fn lemma_plain_text_kept(
    pattern: Seq<char>,
    template: Seq<char>,
    table: Seq<FieldText>,
    key: Seq<char>,
    i: int,
)
    requires
        0 <= i < template.len(),
        placeholder_at(template, i) is None,
    ensures
        expanded_from(template, i, pattern, table, key) == seq![template[i]] + expanded_from(
            template,
            i + 1,
            pattern,
            table,
            key,
        ),
{
}

/// A placeholder whose field has rules is replaced by what the last matching
/// rule makes of the captured value: if rule `k` of the field matches the value
/// and no later rule does, the substitution is the replacement of rule `k`.
pub proof fn lemma_rewrite_precedence(
    pattern: Seq<char>,
    table: Seq<FieldText>,
    key: Seq<char>,
    name: Seq<char>,
    k: int,
)
    requires
        captured(pattern, key, name) is Some,
        rules_for(table, name, 0) is Some,
        0 <= k < rules_for(table, name, 0).unwrap().len(),
        has_match(rules_for(table, name, 0).unwrap()[k].0, captured(pattern, key, name).unwrap()),
        forall|j: int|
            k < j < rules_for(table, name, 0).unwrap().len() ==> !has_match(
                #[trigger] rules_for(table, name, 0).unwrap()[j].0,
                captured(pattern, key, name).unwrap(),
            ),
    ensures
        ({
            let cases = rules_for(table, name, 0).unwrap();
            let value = captured(pattern, key, name).unwrap();
            substitution(pattern, table, key, name) == replaced(cases[k].0, value, cases[k].1)
        }),
{
    let cases = rules_for(table, name, 0).unwrap();
    let value = captured(pattern, key, name).unwrap();
    lemma_last_match_wins(cases, value, k, cases.len() as int);
}

} // verus!
