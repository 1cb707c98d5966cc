//! Degrees: seed records and their validation, the per-year structure URLs,
//! the assembly of year documents and the index that lists them.

use crate::html::{first_link_selector, first_selected_attr, first_structure_link};
use crate::slug::{level_of, name_and_code_to_slug, name_to_level, slug_of, Level};
use crate::text::{chars_of, decimal, decimal_of, joined, push_all, string_of};
use crate::year::{scraping_window, window_years};
use vstd::prelude::*;

verus! {

/// A degree as the seed file describes it.
pub struct Predegree {
    /// The kebab-case name by which the degree is known here.
    pub id: String,
    /// The degree's display name.
    pub name: String,
    /// The catalogue's code of the degree, usually shaped like `1234/567`.
    pub code: String,
}

/// Whether a seed record has an empty field.
pub open spec fn has_empty_field(p: Predegree) -> bool {
    p.id@.len() == 0 || p.name@.len() == 0 || p.code@.len() == 0
}

/// Whether a seed record becomes a degree: no field is empty and a slug can
/// be inferred for it.
pub open spec fn resolves(p: Predegree) -> bool {
    !has_empty_field(p) && slug_of(p.name@, p.code@) is Some
}

/// A degree, with the structure-page URL of each enrolment year found so far.
pub struct Degree {
    /// The degree's display name.
    pub name: String,
    /// The kebab-case name by which the degree is known here.
    pub slug: String,
    /// The degree's level.
    pub level: Level,
    /// The slug that the catalogue uses for the degree.
    pub site_slug: String,
    /// The structure-page URL of each year, by ascending year.
    pub year_urls: Vec<(u32, String)>,
}

/// Whether `d` is the degree that the seed record `p` resolves to, before any
/// structure URL is found.
pub open spec fn degree_from_seed(d: Degree, p: Predegree) -> bool {
    &&& d.name@ == p.name@
    &&& d.slug@ == p.id@
    &&& d.level == level_of(p.name@)
    &&& slug_of(p.name@, p.code@) == Some(d.site_slug@)
    &&& d.year_url_pairs().len() == 0
}

/// The seed records that become degrees, in order.
pub open spec fn kept_seeds(ps: Seq<Predegree>) -> Seq<Predegree>
    decreases ps.len(),
{
    if ps.len() == 0 {
        seq![]
    } else if resolves(ps.last()) {
        kept_seeds(ps.drop_last()).push(ps.last())
    } else {
        kept_seeds(ps.drop_last())
    }
}

/// The address of the course listing of a degree for one enrolment year.
pub open spec fn probe_url_of(level: Seq<char>, site_slug: Seq<char>, year: u32) -> Seq<char> {
    "https://corsi.unibo.it/"@ + level + "/"@ + site_slug + "/insegnamenti?year="@ + decimal(
        year as nat,
    )
}

/// The address of the course listing of a degree for one enrolment year.
pub fn probe_url(level: Level, site_slug: &str, year: u32) -> (r: String)
    ensures
        r@ == probe_url_of(level.segment(), site_slug@, year),
{
    let mut out = chars_of("https://corsi.unibo.it/");
    push_all(&mut out, &chars_of(level.path_segment()));
    push_all(&mut out, &chars_of("/"));
    push_all(&mut out, &chars_of(site_slug));
    push_all(&mut out, &chars_of("/insegnamenti?year="));
    push_all(&mut out, &decimal_of(year));
    string_of(&out)
}

impl Degree {
    /// The structure-page URLs found so far, by year.
    pub open spec fn year_url_pairs(&self) -> Seq<(u32, Seq<char>)> {
        self.year_urls@.map_values(|p: (u32, String)| (p.0, p.1@))
    }

    /// The years are strictly ascending.
    pub open spec fn well_formed(&self) -> bool {
        forall|i: int, j: int|
            0 <= i < j < self.year_url_pairs().len() ==> self.year_url_pairs()[i].0
                < self.year_url_pairs()[j].0
    }

    /// The course-listing addresses to probe for each year of the scraping
    /// window of the academic year `current`, ascending.
    pub fn probe_urls(&self, current: u32) -> (r: Vec<(u32, String)>)
        ensures
            r@.len() == window_years(current as int).len(),
            forall|i: int|
                0 <= i < r@.len() ==> r@[i].0 == window_years(current as int)[i] && (#[trigger] r@[i]).1@
                    == probe_url_of(self.level.segment(), self.site_slug@, r@[i].0),
    {
        let years = scraping_window(current);
        let mut r: Vec<(u32, String)> = Vec::new();
        let mut k: usize = 0;
        while k < years.len()
            invariant
                k <= years@.len(),
                r@.len() == k,
                years@.len() == window_years(current as int).len(),
                forall|i: int| 0 <= i < years@.len() ==> years@[i] == window_years(current as int)[i],
                forall|i: int|
                    0 <= i < k ==> r@[i].0 == years@[i] && (#[trigger] r@[i]).1@ == probe_url_of(
                        self.level.segment(),
                        self.site_slug@,
                        r@[i].0,
                    ),
            decreases years@.len() - k,
        {
            let y = years[k];
            r.push((y, probe_url(self.level, self.site_slug.as_str(), y)));
            k = k + 1;
        }
        r
    }

    /// Records `url` as the structure page of `year`, when `year` comes after
    /// every year recorded so far; returns whether it was recorded.
    pub fn add_year_url(&mut self, year: u32, url: String) -> (added: bool)
        requires
            old(self).well_formed(),
        ensures
            final(self).well_formed(),
            final(self).name == old(self).name,
            final(self).slug == old(self).slug,
            final(self).level == old(self).level,
            final(self).site_slug == old(self).site_slug,
            added == (old(self).year_url_pairs().len() == 0 || old(self).year_url_pairs().last().0
                < year),
            added ==> final(self).year_url_pairs() == old(self).year_url_pairs().push((year, url@)),
            !added ==> final(self).year_url_pairs() == old(self).year_url_pairs(),
    {
        let n = self.year_urls.len();
        if n == 0 || self.year_urls[n - 1].0 < year {
            let ghost before = old(self).year_url_pairs();
            self.year_urls.push((year, url));
            assert(self.year_url_pairs() =~= before.push((year, url@)));
            assert forall|i: int, j: int|
                0 <= i < j < self.year_url_pairs().len() implies self.year_url_pairs()[i].0
                < self.year_url_pairs()[j].0 by {
                if j == before.len() && i < before.len() - 1 {
                    assert(before[i].0 < before[before.len() - 1].0);
                }
            }
            true
        } else {
            false
        }
    }

    /// Records the structure page that the course listing `page` of `year`
    /// links to first, if it links to one and `year` comes after every year
    /// recorded so far; returns whether it was recorded.
    pub fn record_probe_page(&mut self, year: u32, page: &str) -> (added: bool)
        requires
            old(self).well_formed(),
        ensures
            final(self).well_formed(),
            final(self).name == old(self).name,
            final(self).slug == old(self).slug,
            final(self).level == old(self).level,
            final(self).site_slug == old(self).site_slug,
            added == (first_selected_attr(page@, first_link_selector(), "href"@) is Some && (old(
                self,
            ).year_url_pairs().len() == 0 || old(self).year_url_pairs().last().0 < year)),
            added ==> final(self).year_url_pairs() == old(self).year_url_pairs().push(
                (year, first_selected_attr(page@, first_link_selector(), "href"@)->0),
            ),
            !added ==> final(self).year_url_pairs() == old(self).year_url_pairs(),
    {
        match first_structure_link(page) {
            Some(url) => self.add_year_url(year, url),
            None => false,
        }
    }
}

/// Turns a seed record into a degree with no structure URL yet; none when a
/// field is empty or no slug can be inferred.
pub fn parse_degree(p: &Predegree) -> (r: Option<Degree>)
    ensures
        has_empty_field(*p) ==> r is None,
        r is Some <==> resolves(*p),
        r is Some ==> degree_from_seed(r->0, *p) && r->0.well_formed(),
{
    if p.name.as_str().is_empty() || p.id.as_str().is_empty() || p.code.as_str().is_empty() {
        return None;
    }
    let site_slug = name_and_code_to_slug(p.name.as_str(), p.code.as_str())?;
    let d = Degree {
        name: p.name.clone(),
        slug: p.id.clone(),
        level: name_to_level(p.name.as_str()),
        site_slug,
        year_urls: Vec::new(),
    };
    assert(d.year_url_pairs() =~= Seq::<(u32, Seq<char>)>::empty());
    Some(d)
}

/// The degrees of the seed records that resolve, in order.
pub fn to_degrees(predegrees: Vec<Predegree>) -> (r: Vec<Degree>)
    ensures
        r@.len() == kept_seeds(predegrees@).len(),
        forall|i: int|
            0 <= i < r@.len() ==> degree_from_seed(#[trigger] r@[i], kept_seeds(predegrees@)[i])
                && r@[i].well_formed(),
{
    let mut r: Vec<Degree> = Vec::new();
    let mut k: usize = 0;
    while k < predegrees.len()
        invariant
            k <= predegrees@.len(),
            r@.len() == kept_seeds(predegrees@.subrange(0, k as int)).len(),
            forall|i: int|
                0 <= i < r@.len() ==> degree_from_seed(
                    #[trigger] r@[i],
                    kept_seeds(predegrees@.subrange(0, k as int))[i],
                ) && r@[i].well_formed(),
        decreases predegrees@.len() - k,
    {
        assert(predegrees@.subrange(0, k + 1).drop_last() =~= predegrees@.subrange(0, k as int));
        match parse_degree(&predegrees[k]) {
            Some(d) => {
                r.push(d);
            },
            None => {},
        }
        k = k + 1;
    }
    assert(predegrees@.subrange(0, k as int) =~= predegrees@);
    r
}

/// A seed record with an empty field never becomes a degree, wherever it
/// stands among the seed records.
pub proof fn lemma_empty_field_dropped(before: Seq<Predegree>, p: Predegree, after: Seq<Predegree>)
    requires
        has_empty_field(p),
    ensures
        !resolves(p),
        kept_seeds(before.push(p) + after) == kept_seeds(before + after),
    decreases after.len(),
{
    if after.len() == 0 {
        assert(before.push(p) + after =~= before.push(p));
        assert(before + after =~= before);
        assert(before.push(p).drop_last() =~= before);
    } else {
        lemma_empty_field_dropped(before, p, after.drop_last());
        assert((before.push(p) + after).drop_last() =~= before.push(p) + after.drop_last());
        assert((before + after).drop_last() =~= before + after.drop_last());
    }
}

/// Strings read as character sequences.
pub open spec fn strings_view(v: Seq<String>) -> Seq<Seq<char>> {
    v.map_values(|s: String| s@)
}

/// The pieces of `ps`, one after another.
pub open spec fn concat(ps: Seq<Seq<char>>) -> Seq<char>
    decreases ps.len(),
{
    if ps.len() == 0 {
        seq![]
    } else {
        concat(ps.drop_last()) + ps.last()
    }
}

/// The document of one year of a degree: a heading naming the degree and the
/// year, then the course sections in row order.
pub open spec fn year_document(name: Seq<char>, year: u32, sections: Seq<Seq<char>>) -> Seq<char> {
    "= "@ + name + " ("@ + decimal(year as nat) + ")\n\n"@ + concat(sections)
}

/// Renders the document of one year of a degree from its course sections.
pub fn analyze_year(name: &str, year: u32, sections: &Vec<String>) -> (r: String)
    ensures
        r@ == year_document(name@, year, strings_view(sections@)),
{
    let mut out = chars_of("= ");
    push_all(&mut out, &chars_of(name));
    push_all(&mut out, &chars_of(" ("));
    push_all(&mut out, &decimal_of(year));
    push_all(&mut out, &chars_of(")\n\n"));
    let ghost head = out@;
    let mut k: usize = 0;
    assert(strings_view(sections@.subrange(0, 0)) =~= Seq::<Seq<char>>::empty());
    assert(out@ =~= head + concat(strings_view(sections@.subrange(0, 0))));
    while k < sections.len()
        invariant
            k <= sections@.len(),
            out@ == head + concat(strings_view(sections@.subrange(0, k as int))),
        decreases sections@.len() - k,
    {
        push_all(&mut out, &chars_of(sections[k].as_str()));
        assert(strings_view(sections@.subrange(0, k + 1)).drop_last() =~= strings_view(
            sections@.subrange(0, k as int),
        ));
        k = k + 1;
    }
    assert(sections@.subrange(0, k as int) =~= sections@);
    string_of(&out)
}

/// The course sections of one year that were produced, in row order.
pub struct YearCourses {
    /// The enrolment year.
    pub year: u32,
    /// The sections of the courses that were turned into one, in row order.
    pub sections: Vec<String>,
}

/// The years reached, each with its sections read as character sequences.
pub open spec fn reached_view(r: Seq<YearCourses>) -> Seq<(u32, Seq<Seq<char>>)> {
    r.map_values(|c: YearCourses| (c.year, strings_view(c.sections@)))
}

/// Documents by year, read as character sequences.
pub open spec fn docs_view(v: Seq<(u32, String)>) -> Seq<(u32, Seq<char>)> {
    v.map_values(|p: (u32, String)| (p.0, p.1@))
}

/// The sections of the first entry of `reached` for `year`.
pub open spec fn sections_for(reached: Seq<(u32, Seq<Seq<char>>)>, year: u32) -> Option<
    Seq<Seq<char>>,
>
    decreases reached.len(),
{
    if reached.len() == 0 {
        None
    } else if reached[0].0 == year {
        Some(reached[0].1)
    } else {
        sections_for(reached.drop_first(), year)
    }
}

/// The documents of a degree named `name`: one for each year with a structure
/// URL that was reached, in the order of those years.
pub open spec fn assembled(
    name: Seq<char>,
    years: Seq<(u32, Seq<char>)>,
    reached: Seq<(u32, Seq<Seq<char>>)>,
) -> Seq<(u32, Seq<char>)>
    decreases years.len(),
{
    if years.len() == 0 {
        seq![]
    } else {
        let rest = assembled(name, years.drop_last(), reached);
        let y = years.last().0;
        match sections_for(reached, y) {
            Some(secs) => rest.push((y, year_document(name, y, secs))),
            None => rest,
        }
    }
}

/// Where the first entry of `reached` for `year` stands.
fn position_of_year(reached: &Vec<YearCourses>, year: u32) -> (r: Option<usize>)
    ensures
        match r {
            Some(i) => i < reached@.len() && sections_for(reached_view(reached@), year) == Some(
                strings_view(reached@[i as int].sections@),
            ),
            None => sections_for(reached_view(reached@), year) is None,
        },
{
    let ghost all = reached_view(reached@);
    let mut k: usize = 0;
    assert(all.subrange(0, all.len() as int) =~= all);
    while k < reached.len()
        invariant
            k <= reached@.len(),
            all == reached_view(reached@),
            sections_for(all.subrange(k as int, all.len() as int), year) == sections_for(all, year),
        decreases reached@.len() - k,
    {
        assert(all.subrange(k as int, all.len() as int)[0] == all[k as int]);
        if reached[k].year == year {
            return Some(k);
        }
        assert(all.subrange(k as int, all.len() as int).drop_first() =~= all.subrange(
            k + 1,
            all.len() as int,
        ));
        k = k + 1;
    }
    None
}

/// Renders the documents of a degree: for each year with a structure URL, in
/// ascending order, the document of its sections, when the year was reached.
pub fn analyze_degree(degree: &Degree, reached: &Vec<YearCourses>) -> (r: Vec<(u32, String)>)
    ensures
        docs_view(r@) == assembled(degree.name@, degree.year_url_pairs(), reached_view(reached@)),
{
    let ghost years = degree.year_url_pairs();
    let mut r: Vec<(u32, String)> = Vec::new();
    let mut k: usize = 0;
    assert(docs_view(r@) =~= assembled(degree.name@, years.subrange(0, 0), reached_view(reached@)));
    while k < degree.year_urls.len()
        invariant
            k <= degree.year_urls@.len(),
            years == degree.year_url_pairs(),
            docs_view(r@) == assembled(
                degree.name@,
                years.subrange(0, k as int),
                reached_view(reached@),
            ),
        decreases degree.year_urls@.len() - k,
    {
        let y = degree.year_urls[k].0;
        assert(years.subrange(0, k + 1).drop_last() =~= years.subrange(0, k as int));
        assert(years.subrange(0, k + 1).last().0 == y);
        match position_of_year(reached, y) {
            Some(i) => {
                let doc = analyze_year(degree.name.as_str(), y, &reached[i].sections);
                let ghost before = docs_view(r@);
                r.push((y, doc));
                assert(docs_view(r@) =~= before.push((y, doc@)));
            },
            None => {},
        }
        k = k + 1;
    }
    assert(years.subrange(0, k as int) =~= years);
    r
}

/// The documents come in strictly ascending order of year when the years of
/// the structure URLs do, and no document is for a year after the last one.
pub proof fn lemma_assembled_ascending(
    name: Seq<char>,
    years: Seq<(u32, Seq<char>)>,
    reached: Seq<(u32, Seq<Seq<char>>)>,
)
    requires
        forall|i: int, j: int| 0 <= i < j < years.len() ==> years[i].0 < years[j].0,
    ensures
        forall|i: int, j: int|
            0 <= i < j < assembled(name, years, reached).len() ==> assembled(name, years, reached)[i].0
                < assembled(name, years, reached)[j].0,
        years.len() > 0 ==> forall|i: int|
            0 <= i < assembled(name, years, reached).len() ==> assembled(name, years, reached)[i].0
                <= years.last().0,
    decreases years.len(),
{
    if years.len() > 0 {
        let prefix = years.drop_last();
        assert forall|i: int, j: int| 0 <= i < j < prefix.len() implies prefix[i].0 < prefix[j].0 by {
            assert(prefix[i] == years[i] && prefix[j] == years[j]);
        }
        lemma_assembled_ascending(name, prefix, reached);
        let rest = assembled(name, prefix, reached);
        let y = years.last().0;
        if prefix.len() > 0 {
            assert(prefix.last() == years[years.len() - 2]);
            assert(prefix.last().0 < y);
        }
        assert forall|i: int| 0 <= i < rest.len() implies rest[i].0 < y by {
            if prefix.len() > 0 {
                assert(rest[i].0 <= prefix.last().0);
            }
        }
        match sections_for(reached, y) {
            Some(secs) => {
                let all = rest.push((y, year_document(name, y, secs)));
                assert(assembled(name, years, reached) == all);
                assert forall|i: int, j: int| 0 <= i < j < all.len() implies all[i].0 < all[j].0 by {
                    if j == all.len() - 1 {
                        assert(all[i] == rest[i]);
                    } else {
                        assert(all[i] == rest[i] && all[j] == rest[j]);
                    }
                }
                assert forall|i: int| 0 <= i < all.len() implies all[i].0 <= y by {
                    if i < rest.len() {
                        assert(all[i] == rest[i]);
                    }
                }
            },
            None => {},
        }
    }
}

/// Assembling is repeatable: the same degree and the same sections give the
/// same documents, in the same order, with years ascending.
pub proof fn lemma_assembly_repeatable(
    first: Degree,
    second: Degree,
    first_reached: Seq<YearCourses>,
    second_reached: Seq<YearCourses>,
)
    requires
        first.well_formed(),
        first.name@ == second.name@,
        first.year_url_pairs() == second.year_url_pairs(),
        reached_view(first_reached) == reached_view(second_reached),
    ensures
        assembled(first.name@, first.year_url_pairs(), reached_view(first_reached)) == assembled(
            second.name@,
            second.year_url_pairs(),
            reached_view(second_reached),
        ),
        forall|i: int, j: int|
            0 <= i < j < assembled(first.name@, first.year_url_pairs(), reached_view(first_reached)).len()
                ==> assembled(first.name@, first.year_url_pairs(), reached_view(first_reached))[i].0
                < assembled(first.name@, first.year_url_pairs(), reached_view(first_reached))[j].0,
{
    lemma_assembled_ascending(first.name@, first.year_url_pairs(), reached_view(first_reached));
}

/// The index entry of one year document of a degree: a heading and links to
/// the document on the web, as PDF and as source.
pub open spec fn index_entry_of(name: Seq<char>, slug: Seq<char>, year: u32) -> Seq<char> {
    let y = decimal(year as nat);
    "\n\n== "@ + name + " ("@ + y + ")\n\nxref:degree-"@ + slug + "-"@ + y + ".adoc[web] | link:degree-"@
        + slug + "-"@ + y + ".pdf[PDF] | link:degree-"@ + slug + "-"@ + y
        + ".adoc[Asciidoc]\n\n"@
}

/// The index entries of the documents `docs` of a degree, in order.
pub open spec fn degree_index_of(name: Seq<char>, slug: Seq<char>, docs: Seq<(u32, Seq<char>)>) -> Seq<
    char,
>
    decreases docs.len(),
{
    if docs.len() == 0 {
        seq![]
    } else {
        degree_index_of(name, slug, docs.drop_last()) + index_entry_of(name, slug, docs.last().0)
    }
}

/// Renders the index entry of one year document of a degree.
pub fn index_entry(name: &str, slug: &str, year: u32) -> (r: Vec<char>)
    ensures
        r@ == index_entry_of(name@, slug@, year),
{
    let y = decimal_of(year);
    let s = chars_of(slug);
    let mut out = chars_of("\n\n== ");
    push_all(&mut out, &chars_of(name));
    push_all(&mut out, &chars_of(" ("));
    push_all(&mut out, &y);
    push_all(&mut out, &chars_of(")\n\nxref:degree-"));
    push_all(&mut out, &s);
    push_all(&mut out, &chars_of("-"));
    push_all(&mut out, &y);
    push_all(&mut out, &chars_of(".adoc[web] | link:degree-"));
    push_all(&mut out, &s);
    push_all(&mut out, &chars_of("-"));
    push_all(&mut out, &y);
    push_all(&mut out, &chars_of(".pdf[PDF] | link:degree-"));
    push_all(&mut out, &s);
    push_all(&mut out, &chars_of("-"));
    push_all(&mut out, &y);
    push_all(&mut out, &chars_of(".adoc[Asciidoc]\n\n"));
    out
}

/// Renders the index entries of the year documents `docs` of a degree.
pub fn analyze_and_write_degree(degree: &Degree, docs: &Vec<(u32, String)>) -> (r: String)
    ensures
        r@ == degree_index_of(degree.name@, degree.slug@, docs_view(docs@)),
{
    let mut out: Vec<char> = Vec::new();
    let mut k: usize = 0;
    assert(docs_view(docs@.subrange(0, 0)) =~= Seq::<(u32, Seq<char>)>::empty());
    while k < docs.len()
        invariant
            k <= docs@.len(),
            out@ == degree_index_of(degree.name@, degree.slug@, docs_view(docs@.subrange(0, k as int))),
        decreases docs@.len() - k,
    {
        let entry = index_entry(degree.name.as_str(), degree.slug.as_str(), docs[k].0);
        push_all(&mut out, &entry);
        assert(docs_view(docs@.subrange(0, k + 1)).drop_last() =~= docs_view(
            docs@.subrange(0, k as int),
        ));
        k = k + 1;
    }
    assert(docs@.subrange(0, k as int) =~= docs@);
    string_of(&out)
}

/// The opening of the index document.
pub open spec fn index_header() -> Seq<char> {
    "= Unified Course Descriptions for Some UNIBO Degrees\n\nhttps://cartabinaria.students.cs.unibo.it/en/wiki/web-scraper/course-description-merged/[Documentation]\n\n"@
}

/// The index document: its opening, then the index entries of each degree,
/// separated by line breaks.
pub fn compute_index_and_write_degrees(entries: &Vec<String>) -> (r: String)
    ensures
        r@ == index_header() + joined(strings_view(entries@), seq!['\n']),
{
    let mut body: Vec<char> = Vec::new();
    let mut k: usize = 0;
    assert(strings_view(entries@.subrange(0, 0)) =~= Seq::<Seq<char>>::empty());
    while k < entries.len()
        invariant
            k <= entries@.len(),
            body@ == joined(strings_view(entries@.subrange(0, k as int)), seq!['\n']),
        decreases entries@.len() - k,
    {
        let ghost prev = strings_view(entries@.subrange(0, k as int));
        let ghost next = strings_view(entries@.subrange(0, k + 1));
        assert(next.drop_last() =~= prev);
        if k > 0 {
            body.push('\n');
        }
        push_all(&mut body, &chars_of(entries[k].as_str()));
        proof {
            if k == 0 {
                assert(body@ =~= next[0]);
            } else {
                assert(body@ =~= joined(prev, seq!['\n']) + seq!['\n'] + next.last());
            }
        }
        k = k + 1;
    }
    assert(entries@.subrange(0, k as int) =~= entries@);
    let mut out = chars_of(
        "= Unified Course Descriptions for Some UNIBO Degrees\n\nhttps://cartabinaria.students.cs.unibo.it/en/wiki/web-scraper/course-description-merged/[Documentation]\n\n",
    );
    push_all(&mut out, &body);
    string_of(&out)
}

} // verus!
