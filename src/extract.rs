//! Resolving a course's English page and extracting its description: the
//! English link inside the language selector, the end-marker table, and the
//! bounded, normalised description block.

use crate::fixup::{render_description, rendered_description, rules_view};
use crate::html::{first_inner_html, first_selected_inner_html, first_selected_text, first_text};
use crate::text::{
    chars_of, clamped_slice, contains, decimal, decimal_of, find, find_or_len, first_index,
    has_substring, index_or_len, normalize, normalized, push_all, same_text, string_of, substring,
    trim, trimmed,
};
use vstd::prelude::*;

verus! {

/// Why a course could not be turned into a section.
#[derive(Clone, Copy, Debug, PartialEq, Eq, Structural)]
pub enum CourseFailure {
    /// The course's cell holds no link to a detail page.
    MissingLink,
    /// A page could not be fetched.
    Network,
    /// A page was answered with a status that is not a success.
    HttpStatus,
    /// The detail page offers no English variant.
    MissingEnglishVariant,
    /// The English variant's markup holds no quoted URL.
    MissingEnglishUrl,
    /// The English page has no title heading.
    MissingTitle,
    /// The English page has no description block.
    MissingDescription,
    /// The end-marker table has no wildcard entry.
    MissingWildcardMarker,
}

/// The URL quoted in the language selector's markup: from the first `http`
/// up to the next double quote.
pub open spec fn english_url_of(fragment: Seq<char>) -> Option<Seq<char>> {
    match first_index(fragment, "http"@) {
        None => None,
        Some(i) => {
            let tail = fragment.subrange(i, fragment.len() as int);
            match first_index(tail, seq!['"']) {
                None => None,
                Some(j) => Some(tail.subrange(0, j)),
            }
        },
    }
}

/// The URL quoted in the markup of a language selector entry.
pub fn resolve_english_url(fragment: &str) -> (r: Option<String>)
    ensures
        match r {
            Some(s) => english_url_of(fragment@) == Some(s@),
            None => english_url_of(fragment@) is None,
        },
{
    let f = chars_of(fragment);
    let http = chars_of("http");
    proof {
        crate::text::lemma_first_index(f@, http@);
    }
    let start = find(&f, &http)?;
    let tail = substring(&f, start, f.len());
    let quote = vec!['"'];
    assert(quote@ =~= seq!['"']);
    proof {
        crate::text::lemma_first_index(tail@, quote@);
        if start < f@.len() {
            assert(tail@ =~= f@.subrange(start as int, f@.len() as int));
        }
    }
    let end = find(&tail, &quote)?;
    let url = substring(&tail, 0, end);
    assert(url@ =~= tail@.subrange(0, end as int));
    Some(string_of(&url))
}

/// The selector of the language selector entry for English.
pub open spec fn english_variant_selector() -> Seq<char> {
    "li.language-en"@
}

/// The outcome of resolving the English page from the detail page `page`.
pub open spec fn english_page_url_of(page: Seq<char>) -> Result<Seq<char>, CourseFailure> {
    match first_selected_inner_html(page, english_variant_selector()) {
        None => Err(CourseFailure::MissingEnglishVariant),
        Some(f) => match english_url_of(f) {
            None => Err(CourseFailure::MissingEnglishUrl),
            Some(u) => Ok(u),
        },
    }
}

/// The URL of the English variant of a course's detail page.
pub fn english_page_url(page: &str) -> (r: Result<String, CourseFailure>)
    ensures
        match r {
            Ok(u) => english_page_url_of(page@) == Ok::<Seq<char>, CourseFailure>(u@),
            Err(e) => english_page_url_of(page@) == Err::<Seq<char>, CourseFailure>(e),
        },
{
    match first_inner_html(page, "li.language-en") {
        None => Err(CourseFailure::MissingEnglishVariant),
        Some(f) => match resolve_english_url(f.as_str()) {
            None => Err(CourseFailure::MissingEnglishUrl),
            Some(u) => Ok(u),
        },
    }
}

/// Whether a title pattern is the wildcard entry.
pub open spec fn is_wildcard(p: Seq<char>) -> bool {
    p == seq!['*']
}

/// The marker of the first wildcard entry at or after `k`.
pub open spec fn wildcard_from(t: Seq<(Seq<char>, Seq<char>)>, k: int) -> Option<Seq<char>>
    decreases t.len() - k,
{
    if k < 0 || k >= t.len() {
        None
    } else if is_wildcard(t[k].0) {
        Some(t[k].1)
    } else {
        wildcard_from(t, k + 1)
    }
}

/// The marker of the first entry at or after `k` that is not the wildcard
/// and whose pattern occurs in `title`.
pub open spec fn title_match_from(t: Seq<(Seq<char>, Seq<char>)>, title: Seq<char>, k: int) -> Option<
    Seq<char>,
>
    decreases t.len() - k,
{
    if k < 0 || k >= t.len() {
        None
    } else if !is_wildcard(t[k].0) && has_substring(title, t[k].0) {
        Some(t[k].1)
    } else {
        title_match_from(t, title, k + 1)
    }
}

/// The end marker for a course titled `title`: the marker of the first
/// non-wildcard entry whose pattern occurs in the title, else the wildcard's;
/// none when the table has no wildcard entry.
pub open spec fn chosen_marker(t: Seq<(Seq<char>, Seq<char>)>, title: Seq<char>) -> Option<
    Seq<char>,
> {
    match wildcard_from(t, 0) {
        None => None,
        Some(w) => match title_match_from(t, title, 0) {
            Some(m) => Some(m),
            None => Some(w),
        },
    }
}

proof fn lemma_no_title_match(t: Seq<(Seq<char>, Seq<char>)>, title: Seq<char>, k: int)
    requires
        0 <= k,
        forall|i: int| 0 <= i < t.len() && !is_wildcard(t[i].0) ==> !has_substring(title, t[i].0),
    ensures
        title_match_from(t, title, k) is None,
    decreases t.len() - k,
{
    if k < t.len() {
        lemma_no_title_match(t, title, k + 1);
    }
}

/// Where no pattern but the wildcard occurs in the title, the wildcard's
/// marker is chosen; where the table has no wildcard entry, none is.
pub proof fn lemma_wildcard_fallback(t: Seq<(Seq<char>, Seq<char>)>, title: Seq<char>)
    ensures
        wildcard_from(t, 0) is None ==> chosen_marker(t, title) is None,
        (forall|i: int| 0 <= i < t.len() && !is_wildcard(t[i].0) ==> !has_substring(title, t[i].0))
            ==> chosen_marker(t, title) == wildcard_from(t, 0),
{
    if forall|i: int| 0 <= i < t.len() && !is_wildcard(t[i].0) ==> !has_substring(title, t[i].0) {
        lemma_no_title_match(t, title, 0);
    }
}

/// The end markers of description blocks, by title pattern, in the order in
/// which they are tried.
pub open spec fn default_markers_view() -> Seq<(Seq<char>, Seq<char>)> {
    seq![
        ("Numerical Computing"@, "Teaching"@),
        ("History of Informatics"@, "Office"@),
        (seq!['*'], "Readings"@),
    ]
}

/// The end markers of description blocks, by title pattern.
pub fn default_markers() -> (r: Vec<(String, String)>)
    ensures
        rules_view(r@) == default_markers_view(),
{
    let wildcard = "*".to_owned();
    let r = vec![
        ("Numerical Computing".to_owned(), "Teaching".to_owned()),
        ("History of Informatics".to_owned(), "Office".to_owned()),
        (wildcard, "Readings".to_owned()),
    ];
    proof {
        reveal_strlit("*");
        assert(wildcard@ =~= seq!['*']);
    }
    assert(rules_view(r@)[2] == default_markers_view()[2]);
    assert(rules_view(r@) =~= default_markers_view());
    r
}

/// The end marker for a course titled `title`.
pub fn select_end_marker(table: &Vec<(String, String)>, title: &str) -> (r: Result<
    String,
    CourseFailure,
>)
    ensures
        match r {
            Ok(m) => chosen_marker(rules_view(table@), title@) == Some(m@),
            Err(e) => chosen_marker(rules_view(table@), title@) is None && e
                == CourseFailure::MissingWildcardMarker,
        },
{
    let ghost t = rules_view(table@);
    let star = vec!['*'];
    assert(star@ =~= seq!['*']);
    let ti = chars_of(title);
    let mut wildcard: Option<usize> = None;
    let mut matched: Option<usize> = None;
    let mut k: usize = 0;
    while k < table.len()
        invariant
            k <= table@.len(),
            t == rules_view(table@),
            star@ == seq!['*'],
            ti@ == title@,
            match wildcard {
                None => wildcard_from(t, 0) == wildcard_from(t, k as int),
                Some(w) => w < table@.len() && wildcard_from(t, 0) == Some(t[w as int].1),
            },
            match matched {
                None => title_match_from(t, title@, 0) == title_match_from(t, title@, k as int),
                Some(w) => w < table@.len() && title_match_from(t, title@, 0) == Some(
                    t[w as int].1,
                ),
            },
        decreases table@.len() - k,
    {
        assert(t[k as int] == (table@[k as int].0@, table@[k as int].1@));
        let pattern = chars_of(table[k].0.as_str());
        let wild = same_text(&pattern, &star);
        if wildcard.is_none() && wild {
            wildcard = Some(k);
        }
        if matched.is_none() && !wild && contains(&ti, &pattern) {
            matched = Some(k);
        }
        k = k + 1;
    }
    match wildcard {
        None => Err(CourseFailure::MissingWildcardMarker),
        Some(w) => match matched {
            Some(m) => Ok(table[m].1.clone()),
            None => Ok(table[w].1.clone()),
        },
    }
}

/// The label that opens the extracted part of a description block.
pub open spec fn start_marker() -> Seq<char> {
    "Learning outcomes"@
}

/// Where the extracted part stops, given where the end marker stands: two
/// characters before it.
pub open spec fn body_end(f: int) -> int {
    if f >= 2 {
        f - 2
    } else {
        0
    }
}

/// The part of a description block from the start label, or from its end
/// when the label is absent, to two characters before the end marker, or
/// before the block's end when the marker is absent.
pub open spec fn raw_body_of(block: Seq<char>, marker: Seq<char>) -> Seq<char> {
    clamped_slice(
        block,
        index_or_len(block, start_marker()),
        body_end(index_or_len(block, marker)),
    )
}

/// The extracted part of a description block.
pub fn raw_body(block: &str, marker: &str) -> (r: String)
    ensures
        r@ == raw_body_of(block@, marker@),
{
    let b = chars_of(block);
    let start = find_or_len(&b, &chars_of("Learning outcomes"));
    let f = find_or_len(&b, &chars_of(marker));
    let end: usize = if f >= 2 { f - 2 } else { 0 };
    string_of(&substring(&b, start, end))
}

/// The extracted part of a description block, split into trimmed lines, blank
/// ones dropped and the rest separated by blank lines.
pub fn extract_body(block: &str, marker: &str) -> (r: String)
    ensures
        r@ == normalized(raw_body_of(block@, marker@)),
{
    let raw = raw_body(block, marker);
    string_of(&normalize(&chars_of(raw.as_str())))
}

/// A course section: a heading linking the English page under the course's
/// title, a footer linking the year document of the degree as PDF and as
/// source, and the description.
pub open spec fn section_of(
    url: Seq<char>,
    title: Seq<char>,
    slug: Seq<char>,
    year: u32,
    body: Seq<char>,
) -> Seq<char> {
    "\n== "@ + url + "["@ + title + "]\n\nlink:degree-"@ + slug + "-"@ + decimal(year as nat)
        + ".pdf[PDF], xref:degree-"@ + slug + "-"@ + decimal(year as nat) + ".adoc[ADOC].\n\n"@
        + trimmed(body)
}

/// Renders a course section.
pub fn render_section(url: &str, title: &str, slug: &str, year: u32, body: &str) -> (r: String)
    ensures
        r@ == section_of(url@, title@, slug@, year, body@),
{
    let y = decimal_of(year);
    let s = chars_of(slug);
    let mut out = chars_of("\n== ");
    push_all(&mut out, &chars_of(url));
    push_all(&mut out, &chars_of("["));
    push_all(&mut out, &chars_of(title));
    push_all(&mut out, &chars_of("]\n\nlink:degree-"));
    push_all(&mut out, &s);
    push_all(&mut out, &chars_of("-"));
    push_all(&mut out, &y);
    push_all(&mut out, &chars_of(".pdf[PDF], xref:degree-"));
    push_all(&mut out, &s);
    push_all(&mut out, &chars_of("-"));
    push_all(&mut out, &y);
    push_all(&mut out, &chars_of(".adoc[ADOC].\n\n"));
    push_all(&mut out, &trim(&chars_of(body)));
    string_of(&out)
}

/// The outcome of describing a course from its English page's title and
/// description block.
pub open spec fn description_of(
    markers: Seq<(Seq<char>, Seq<char>)>,
    slug: Seq<char>,
    year: u32,
    url: Seq<char>,
    title: Seq<char>,
    block: Seq<char>,
) -> Result<Seq<char>, CourseFailure> {
    match chosen_marker(markers, title) {
        None => Err(CourseFailure::MissingWildcardMarker),
        Some(m) => Ok(section_of(url, title, slug, year, normalized(raw_body_of(block, m)))),
    }
}

/// Describes a course from the title and description block of its English
/// page, found at `url`.
pub fn describe_teaching(
    markers: &Vec<(String, String)>,
    slug: &str,
    year: u32,
    url: &str,
    title: &str,
    block: &str,
) -> (r: Result<String, CourseFailure>)
    ensures
        match r {
            Ok(s) => description_of(rules_view(markers@), slug@, year, url@, title@, block@)
                == Ok::<Seq<char>, CourseFailure>(s@),
            Err(e) => description_of(rules_view(markers@), slug@, year, url@, title@, block@)
                == Err::<Seq<char>, CourseFailure>(e),
        },
{
    let marker = select_end_marker(markers, title)?;
    let body = extract_body(block, marker.as_str());
    Ok(render_section(url, title, slug, year, body.as_str()))
}

/// The selector of an English page's title heading.
pub open spec fn title_selector() -> Seq<char> {
    "div#u-content-intro>h1"@
}

/// The selector of an English page's description block.
pub open spec fn description_selector() -> Seq<char> {
    "div.description-text"@
}

/// The outcome of describing a course from its English page `page`, found
/// at `url`.
pub open spec fn teaching_page_of(
    markers: Seq<(Seq<char>, Seq<char>)>,
    slug: Seq<char>,
    year: u32,
    url: Seq<char>,
    page: Seq<char>,
) -> Result<Seq<char>, CourseFailure> {
    match first_selected_text(page, title_selector()) {
        None => Err(CourseFailure::MissingTitle),
        Some(title) => match first_selected_text(page, description_selector()) {
            None => Err(CourseFailure::MissingDescription),
            Some(block) => description_of(markers, slug, year, url, title, block),
        },
    }
}

/// Describes a course from its English page `page`, found at `url`.
pub fn get_desc_teaching_page(
    markers: &Vec<(String, String)>,
    slug: &str,
    year: u32,
    url: &str,
    page: &str,
) -> (r: Result<String, CourseFailure>)
    ensures
        match r {
            Ok(s) => teaching_page_of(rules_view(markers@), slug@, year, url@, page@)
                == Ok::<Seq<char>, CourseFailure>(s@),
            Err(e) => teaching_page_of(rules_view(markers@), slug@, year, url@, page@)
                == Err::<Seq<char>, CourseFailure>(e),
        },
{
    let title = match first_text(page, "div#u-content-intro>h1") {
        Some(t) => t,
        None => return Err(CourseFailure::MissingTitle),
    };
    let block = match first_text(page, "div.description-text") {
        Some(b) => b,
        None => return Err(CourseFailure::MissingDescription),
    };
    describe_teaching(markers, slug, year, url, title.as_str(), block.as_str())
}

/// A course section with the translation fix-ups applied, from the course's
/// English page `page`, found at `url`.
pub fn scrape_link(
    markers: &Vec<(String, String)>,
    slug: &str,
    year: u32,
    url: &str,
    page: &str,
) -> (r: Result<String, CourseFailure>)
    ensures
        match teaching_page_of(rules_view(markers@), slug@, year, url@, page@) {
            Ok(d) => r is Ok && r->Ok_0@ == rendered_description(d),
            Err(e) => r == Err::<String, CourseFailure>(e),
        },
{
    let d = get_desc_teaching_page(markers, slug, year, url, page)?;
    Ok(render_description(d))
}

} // verus!
