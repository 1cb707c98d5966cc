//! Seed records of degrees, and the level and site slug inferred from them.

use crate::text::{chars_of, contains, has_substring, replace_all, replaced, same_text, string_of};
use vstd::prelude::*;

verus! {

/// The level of a degree programme.
#[derive(Clone, Copy, Debug, PartialEq, Eq, Structural)]
pub enum Level {
    /// A first-cycle degree.
    Bachelor,
    /// A second-cycle degree.
    Master,
}

impl Level {
    /// The path segment under which the catalogue lists degrees of this level.
    pub open spec fn segment(self) -> Seq<char> {
        match self {
            Level::Bachelor => "laurea"@,
            Level::Master => "magistrale"@,
        }
    }

    /// The path segment under which the catalogue lists degrees of this level.
    pub fn path_segment(&self) -> (r: &'static str)
        ensures
            r@ == self.segment(),
    {
        match self {
            Level::Bachelor => "laurea",
            Level::Master => "magistrale",
        }
    }
}

/// The level named by a degree's display name: a master's degree when the
/// name mentions "Magistrale" or "Master".
pub open spec fn level_of(name: Seq<char>) -> Level {
    if has_substring(name, "Magistrale"@) || has_substring(name, "Master"@) {
        Level::Master
    } else {
        Level::Bachelor
    }
}

/// Infers the level of a degree from its display name.
pub fn name_to_level(name: &str) -> (r: Level)
    ensures
        r == level_of(name@),
{
    let n = chars_of(name);
    if contains(&n, &chars_of("Magistrale")) || contains(&n, &chars_of("Master")) {
        Level::Master
    } else {
        Level::Bachelor
    }
}

/// The pattern of the words that the catalogue leaves out of a slug:
/// connectors between words, and the words that name the level.
pub open spec fn connector_pattern() -> Seq<char> {
    "( (e|per il|in) )|Magistrale|Master"@
}

/// A slug exception read as plain values: the programme's code, whether its
/// slug keeps the case of the name, and what replaces its spaces.
pub open spec fn exception_view(e: (String, bool, String)) -> (Seq<char>, bool, Seq<char>) {
    (e.0@, e.1, e.2@)
}

/// The programmes whose slugs depart from the general rule (lower case, no
/// spaces): an engineering programme keeps the case of its name, and an
/// artificial-intelligence programme joins its words with hyphens.
pub open spec fn slug_exceptions_view() -> Seq<(Seq<char>, bool, Seq<char>)> {
    seq![("9254/000"@, true, seq![]), ("9063/000"@, false, seq!['-'])]
}

/// The table of slug exceptions.
pub fn slug_exceptions() -> (r: Vec<(String, bool, String)>)
    ensures
        r@.map_values(|e: (String, bool, String)| exception_view(e)) == slug_exceptions_view(),
{
    let hyphen = "-".to_owned();
    let none = String::new();
    proof {
        reveal_strlit("-");
        assert(hyphen@ =~= seq!['-']);
        assert(none@ =~= Seq::<char>::empty());
    }
    let r = vec![("9254/000".to_owned(), true, none), ("9063/000".to_owned(), false, hyphen)];
    assert(exception_view(r@[0]) == slug_exceptions_view()[0]);
    assert(exception_view(r@[1]) == slug_exceptions_view()[1]);
    assert(r@.map_values(|e: (String, bool, String)| exception_view(e)) =~= slug_exceptions_view());
    r
}

/// The first exception at or after `k` for the programme `code`.
pub open spec fn exception_from(t: Seq<(Seq<char>, bool, Seq<char>)>, code: Seq<char>, k: int) -> Option<
    (Seq<char>, bool, Seq<char>),
>
    decreases t.len() - k,
{
    if k < 0 || k >= t.len() {
        None
    } else if t[k].0 == code {
        Some(t[k])
    } else {
        exception_from(t, code, k + 1)
    }
}

/// The exception for the programme `code`, if there is one.
pub open spec fn exception_of(code: Seq<char>) -> Option<(Seq<char>, bool, Seq<char>)> {
    exception_from(slug_exceptions_view(), code, 0)
}

/// Whether the slug of the programme `code` keeps the case of its name.
pub open spec fn keeps_case(code: Seq<char>) -> bool {
    match exception_of(code) {
        Some(e) => e.1,
        None => false,
    }
}

/// The exception for the programme `code`: whether its slug keeps the case of
/// the name, and what replaces its spaces.
fn exception_for(code: &str) -> (r: (bool, Vec<char>))
    ensures
        r.0 == keeps_case(code@),
        r.1@ == word_separator(code@),
{
    let table = slug_exceptions();
    let ghost t = slug_exceptions_view();
    let c = chars_of(code);
    let mut k: usize = 0;
    while k < table.len()
        invariant
            k <= table@.len(),
            c@ == code@,
            table@.map_values(|e: (String, bool, String)| exception_view(e)) == t,
            t == slug_exceptions_view(),
            exception_from(t, code@, k as int) == exception_of(code@),
        decreases table@.len() - k,
    {
        assert(t[k as int] == exception_view(table@[k as int]));
        if same_text(&chars_of(table[k].0.as_str()), &c) {
            return (table[k].1, chars_of(table[k].2.as_str()));
        }
        k = k + 1;
    }
    (false, Vec::new())
}

/// Whether the regular expression `pattern` compiles.
pub uninterp spec fn regex_compiles(pattern: Seq<char>) -> bool;

/// `text` with every match of the regular expression `pattern` removed.
pub uninterp spec fn regex_erased(pattern: Seq<char>, text: Seq<char>) -> Seq<char>;

/// `s` in lower case.
pub uninterp spec fn lower_of(s: Seq<char>) -> Seq<char>;

/// Relies on `regex::Regex::new`, which fails exactly on patterns that do not
/// compile, and `regex::Regex::replace_all` with an empty replacement, which
/// removes every match from the text.
#[verifier::external_body]
fn erase_matches(pattern: &str, text: &str) -> (r: Option<String>)
    ensures
        r is Some <==> regex_compiles(pattern@),
        r is Some ==> r->0@ == regex_erased(pattern@, text@),
{
    let re = regex::Regex::new(pattern).ok()?;
    Some(re.replace_all(text, "").into_owned())
}

/// Relies on `str::to_lowercase`: the result depends on the characters alone.
#[verifier::external_body]
fn lowercase(s: &str) -> (r: String)
    ensures
        r@ == lower_of(s@),
{
    s.to_lowercase()
}

/// The separator that replaces spaces in the slug of the programme `code`.
pub open spec fn word_separator(code: Seq<char>) -> Seq<char> {
    match exception_of(code) {
        Some(e) => e.2,
        None => seq![],
    }
}

/// The slug of a degree whose name, with connectors removed and case settled,
/// is `cased`: its spaces replaced by the programme's word separator.
pub open spec fn slug_from_cased(cased: Seq<char>, code: Seq<char>) -> Seq<char> {
    replaced(cased, seq![' '], word_separator(code))
}

/// The slug of the degree named `name` with code `code`; none when the
/// connector pattern does not compile.
pub open spec fn slug_of(name: Seq<char>, code: Seq<char>) -> Option<Seq<char>> {
    if regex_compiles(connector_pattern()) {
        let stripped = regex_erased(connector_pattern(), name);
        let cased = if keeps_case(code) {
            stripped
        } else {
            lower_of(stripped)
        };
        Some(slug_from_cased(cased, code))
    } else {
        None
    }
}

/// Converts the string to lower case when `b` holds.
pub fn to_lowercase_maybe(s: String, b: bool) -> (r: String)
    ensures
        r@ == (if b {
            lower_of(s@)
        } else {
            s@
        }),
{
    if b {
        lowercase(s.as_str())
    } else {
        s
    }
}

/// Replaces the spaces of a name whose connectors are removed and case is
/// settled by the word separator of the programme `code`.
pub fn join_slug_words(cased: &str, code: &str) -> (r: String)
    ensures
        r@ == slug_from_cased(cased@, code@),
{
    let (_, sep) = exception_for(code);
    let space = vec![' '];
    assert(space@ =~= seq![' ']);
    string_of(&replace_all(&chars_of(cased), &space, &sep))
}

/// Infers the slug that the catalogue uses for a degree from its name and code.
pub fn name_and_code_to_slug(name: &str, code: &str) -> (r: Option<String>)
    ensures
        match r {
            Some(s) => slug_of(name@, code@) == Some(s@),
            None => slug_of(name@, code@) is None,
        },
{
    let stripped = erase_matches("( (e|per il|in) )|Magistrale|Master", name)?;
    let (keep_case, _) = exception_for(code);
    let cased = to_lowercase_maybe(stripped, !keep_case);
    Some(join_slug_words(cased.as_str(), code))
}

} // verus!
