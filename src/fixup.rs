//! Translation fix-ups: an ordered table of substring replacements applied
//! one after another to the same text.

use crate::text::{chars_of, replace_all, replaced, string_of};
use vstd::prelude::*;

verus! {

/// A replacement rule read as a pair of character sequences.
pub open spec fn rule_view(rule: (String, String)) -> (Seq<char>, Seq<char>) {
    (rule.0@, rule.1@)
}

/// A table of replacement rules read as pairs of character sequences.
pub open spec fn rules_view(rules: Seq<(String, String)>) -> Seq<(Seq<char>, Seq<char>)> {
    rules.map_values(|r: (String, String)| rule_view(r))
}

/// `s` after each rule of `rules` in turn, each applied to what the rules
/// before it produced.
pub open spec fn fixed_up(rules: Seq<(Seq<char>, Seq<char>)>, s: Seq<char>) -> Seq<char>
    decreases rules.len(),
{
    if rules.len() == 0 {
        s
    } else {
        replaced(fixed_up(rules.drop_last(), s), rules.last().0, rules.last().1)
    }
}

/// Replaces in `s` every occurrence of the rule's first string by its second.
pub fn replace(s: String, rule: &(String, String)) -> (r: String)
    ensures
        r@ == replaced(s@, rule.0@, rule.1@),
{
    let out = replace_all(&chars_of(s.as_str()), &chars_of(rule.0.as_str()), &chars_of(rule.1.as_str()));
    string_of(&out)
}

/// Applies the rules in order, each to the output of the ones before it.
pub fn apply_rules(rules: &Vec<(String, String)>, s: String) -> (r: String)
    ensures
        r@ == fixed_up(rules_view(rules@), s@),
{
    let mut acc = s;
    let mut k: usize = 0;
    while k < rules.len()
        invariant
            k <= rules@.len(),
            acc@ == fixed_up(rules_view(rules@.subrange(0, k as int)), s@),
        decreases rules@.len() - k,
    {
        proof {
            let prev = rules_view(rules@.subrange(0, k as int));
            let next = rules_view(rules@.subrange(0, k + 1));
            assert(next.drop_last() =~= prev);
            assert(next.last() == rule_view(rules@[k as int]));
        }
        acc = replace(acc, &rules[k]);
        k = k + 1;
    }
    assert(rules@.subrange(0, k as int) =~= rules@);
    acc
}

/// The table of fix-ups: Italian course names that the English pages leave
/// untranslated, and section labels turned into subheadings.
pub open spec fn missing_translations_view() -> Seq<(Seq<char>, Seq<char>)> {
    seq![
        ("BASI DI DATI"@, "DATABASES"@),
        ("INTRODUZIONE ALL'APPRENDIMENTO AUTOMATICO"@, "Introduction to machine learning"@),
        ("FONDAMENTI DI"@, ""@),
        ("Learning outcomes"@, "=== Learning outcomes"@),
        ("Teaching contents"@, "=== Teaching contents"@),
    ]
}

/// The table of fix-ups, in the order in which they apply.
pub fn missing_translations() -> (r: Vec<(String, String)>)
    ensures
        rules_view(r@) == missing_translations_view(),
{
    let r = vec![
        ("BASI DI DATI".to_owned(), "DATABASES".to_owned()),
        (
            "INTRODUZIONE ALL'APPRENDIMENTO AUTOMATICO".to_owned(),
            "Introduction to machine learning".to_owned(),
        ),
        ("FONDAMENTI DI".to_owned(), "".to_owned()),
        ("Learning outcomes".to_owned(), "=== Learning outcomes".to_owned()),
        ("Teaching contents".to_owned(), "=== Teaching contents".to_owned()),
    ];
    assert(rules_view(r@) =~= missing_translations_view());
    r
}

/// A course section as it stands in a year document: a line break, then the
/// section, with the fix-ups applied.
pub open spec fn rendered_description(desc: Seq<char>) -> Seq<char> {
    fixed_up(missing_translations_view(), seq!['\n'] + desc)
}

/// Renders a course section: starts it on a new line and applies the fix-ups.
pub fn render_description(desc: String) -> (r: String)
    ensures
        r@ == rendered_description(desc@),
{
    let mut entry: Vec<char> = vec!['\n'];
    crate::text::push_all(&mut entry, &chars_of(desc.as_str()));
    assert(entry@ =~= seq!['\n'] + desc@);
    apply_rules(&missing_translations(), string_of(&entry))
}

/// Fix-ups act on cumulative output: applying the rules of `first` and then
/// those of `second` is applying the rules of both tables, in that order.
pub proof fn lemma_rules_compose(
    first: Seq<(Seq<char>, Seq<char>)>,
    second: Seq<(Seq<char>, Seq<char>)>,
    s: Seq<char>,
)
    ensures
        fixed_up(first + second, s) == fixed_up(second, fixed_up(first, s)),
    decreases second.len(),
{
    if second.len() == 0 {
        assert(first + second =~= first);
    } else {
        assert((first + second).drop_last() =~= first + second.drop_last());
        lemma_rules_compose(first, second.drop_last(), s);
    }
}

/// A rule appended to a table applies to what the table produced before it.
pub proof fn lemma_rule_sees_earlier_output(
    rules: Seq<(Seq<char>, Seq<char>)>,
    rule: (Seq<char>, Seq<char>),
    s: Seq<char>,
)
    ensures
        fixed_up(rules.push(rule), s) == replaced(fixed_up(rules, s), rule.0, rule.1),
{
    assert(rules.push(rule).drop_last() =~= rules);
}

} // verus!
