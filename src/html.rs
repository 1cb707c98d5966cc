//! Reading catalogue pages: the HTML queries the pipeline makes, and the
//! course entries of a degree's structure page.

use crate::extract::CourseFailure;
use crate::text::{chars_of, same_text, string_of, trim, trimmed};
use vstd::prelude::*;

verus! {

/// An optional string read as an optional character sequence.
pub open spec fn opt_view(o: Option<String>) -> Option<Seq<char>> {
    match o {
        Some(s) => Some(s@),
        None => None,
    }
}

/// The text content of the first element of the HTML document `page` that the
/// CSS selector `selector` picks; none when no element matches or the selector
/// does not parse.
pub uninterp spec fn first_selected_text(page: Seq<char>, selector: Seq<char>) -> Option<
    Seq<char>,
>;

/// The inner markup of the first element of `page` that `selector` picks.
pub uninterp spec fn first_selected_inner_html(page: Seq<char>, selector: Seq<char>) -> Option<
    Seq<char>,
>;

/// The value of the attribute `attr` of the first element of `page` that
/// `selector` picks; none when there is no such element or attribute.
pub uninterp spec fn first_selected_attr(
    page: Seq<char>,
    selector: Seq<char>,
    attr: Seq<char>,
) -> Option<Seq<char>>;

/// For each element of `page` that `selector` picks, in document order: its
/// text content, and the tag name and `href` attribute of each of its child
/// elements.
pub uninterp spec fn selected_cells(page: Seq<char>, selector: Seq<char>) -> Seq<
    (Seq<char>, Seq<(Seq<char>, Option<Seq<char>>)>),
>;

/// A child element of a selected element: its tag name and link target.
pub struct ChildElement {
    pub name: String,
    pub href: Option<String>,
}

/// A selected element: its text content and its child elements.
pub struct Cell {
    pub text: String,
    pub children: Vec<ChildElement>,
}

/// A child element read as its tag name and link target.
pub open spec fn child_view(c: ChildElement) -> (Seq<char>, Option<Seq<char>>) {
    (c.name@, opt_view(c.href))
}

/// A selected element read as its text and its child elements.
pub open spec fn cell_view(c: Cell) -> (Seq<char>, Seq<(Seq<char>, Option<Seq<char>>)>) {
    (c.text@, c.children@.map_values(|e: ChildElement| child_view(e)))
}

/// Relies on `scraper::Selector::parse`, `scraper::Html::parse_document`,
/// `Html::select` and `ElementRef::text`: the text of the first match.
#[verifier::external_body]
pub(crate) fn first_text(page: &str, selector: &str) -> (r: Option<String>)
    ensures
        opt_view(r) == first_selected_text(page@, selector@),
{
    let sel = scraper::Selector::parse(selector).ok()?;
    let doc = scraper::Html::parse_document(page);
    let el = doc.select(&sel).next()?;
    Some(el.text().collect())
}

/// Relies on `scraper::Selector::parse`, `scraper::Html::parse_document`,
/// `Html::select` and `ElementRef::inner_html`: the markup inside the first
/// match.
#[verifier::external_body]
pub(crate) fn first_inner_html(page: &str, selector: &str) -> (r: Option<String>)
    ensures
        opt_view(r) == first_selected_inner_html(page@, selector@),
{
    let sel = scraper::Selector::parse(selector).ok()?;
    let doc = scraper::Html::parse_document(page);
    let el = doc.select(&sel).next()?;
    Some(el.inner_html())
}

/// Relies on `scraper::Selector::parse`, `scraper::Html::parse_document`,
/// `Html::select` and `ElementRef::attr`: an attribute of the first match.
#[verifier::external_body]
pub(crate) fn first_attr(page: &str, selector: &str, attr: &str) -> (r: Option<String>)
    ensures
        opt_view(r) == first_selected_attr(page@, selector@, attr@),
{
    let sel = scraper::Selector::parse(selector).ok()?;
    let doc = scraper::Html::parse_document(page);
    let el = doc.select(&sel).next()?;
    el.attr(attr).map(str::to_owned)
}

/// Relies on `scraper::Selector::parse`, `scraper::Html::parse_document`,
/// `Html::select`, `ElementRef::text`, `ElementRef::wrap` over the children,
/// `Element::name` and `ElementRef::attr`: every match with its child elements.
#[verifier::external_body]
pub(crate) fn select_cells(page: &str, selector: &str) -> (r: Vec<Cell>)
    ensures
        r@.map_values(|c: Cell| cell_view(c)) == selected_cells(page@, selector@),
{
    let Ok(sel) = scraper::Selector::parse(selector) else { return Vec::new() };
    let doc = scraper::Html::parse_document(page);
    doc.select(&sel).map(|c| Cell {
        text: c.text().collect(),
        children: c.children().filter_map(scraper::ElementRef::wrap).map(|e| ChildElement {
            name: e.value().name().to_owned(),
            href: e.attr("href").map(str::to_owned),
        }).collect(),
    }).collect()
}

/// The selector of the link that a degree's course listing gives first: the
/// structure page of the year.
pub open spec fn first_link_selector() -> Seq<char> {
    ".no-bullet > li:first-child > a"@
}

/// The selector of the title cells of a structure page's course table.
pub open spec fn course_cell_selector() -> Seq<char> {
    "td.title"@
}

/// The link target of the first child element named `a`, if it has one.
pub open spec fn first_anchor(children: Seq<(Seq<char>, Option<Seq<char>>)>) -> Option<Seq<char>>
    decreases children.len(),
{
    if children.len() == 0 {
        None
    } else if children[0].0 == seq!['a'] {
        children[0].1
    } else {
        first_anchor(children.drop_first())
    }
}

/// The structure-page URL that a degree's course listing for one year links
/// to first, if any.
pub fn first_structure_link(page: &str) -> (r: Option<String>)
    ensures
        opt_view(r) == first_selected_attr(page@, first_link_selector(), "href"@),
{
    first_attr(page, ".no-bullet > li:first-child > a", "href")
}

/// A course listed on a structure page.
pub struct CourseEntry {
    /// The course's display name.
    pub name: String,
    /// The link to the course's detail page, when the cell holds one.
    pub link: Option<String>,
    /// The slug of the degree whose structure page lists the course.
    pub degree_slug: String,
    /// The enrolment year of that structure page.
    pub year: u32,
}

/// Whether `e` is the course entry of the cell `cell` for the degree `slug`
/// and the year `year`.
pub open spec fn entry_of_cell(
    e: CourseEntry,
    cell: (Seq<char>, Seq<(Seq<char>, Option<Seq<char>>)>),
    slug: Seq<char>,
    year: u32,
) -> bool {
    &&& e.name@ == trimmed(cell.0)
    &&& opt_view(e.link) == first_anchor(cell.1)
    &&& e.degree_slug@ == slug
    &&& e.year == year
}

/// The link target of the first child element named `a`.
fn anchor_of(children: &Vec<ChildElement>) -> (r: Option<String>)
    ensures
        opt_view(r) == first_anchor(children@.map_values(|e: ChildElement| child_view(e))),
{
    let ghost all = children@.map_values(|e: ChildElement| child_view(e));
    let a = vec!['a'];
    assert(a@ =~= seq!['a']);
    let mut k: usize = 0;
    assert(all.subrange(0, all.len() as int) =~= all);
    while k < children.len()
        invariant
            k <= children@.len(),
            all == children@.map_values(|e: ChildElement| child_view(e)),
            a@ == seq!['a'],
            first_anchor(all.subrange(k as int, all.len() as int)) == first_anchor(all),
        decreases children@.len() - k,
    {
        let ghost rest = all.subrange(k as int, all.len() as int);
        assert(rest[0] == child_view(children@[k as int]));
        if same_text(&chars_of(children[k].name.as_str()), &a) {
            return match &children[k].href {
                Some(h) => Some(h.clone()),
                None => None,
            };
        }
        assert(rest.drop_first() =~= all.subrange(k + 1, all.len() as int));
        k = k + 1;
    }
    None
}

/// The course entries of the selected title cells, in order.
pub fn entries_from_cells(cells: &Vec<Cell>, degree_slug: &str, year: u32) -> (r: Vec<
    CourseEntry,
>)
    ensures
        r@.len() == cells@.len(),
        forall|i: int|
            0 <= i < r@.len() ==> entry_of_cell(
                #[trigger] r@[i],
                cell_view(cells@[i]),
                degree_slug@,
                year,
            ),
{
    let mut r: Vec<CourseEntry> = Vec::new();
    let mut k: usize = 0;
    while k < cells.len()
        invariant
            k <= cells@.len(),
            r@.len() == k,
            forall|i: int|
                0 <= i < k ==> entry_of_cell(#[trigger] r@[i], cell_view(cells@[i]), degree_slug@, year),
        decreases cells@.len() - k,
    {
        let name = string_of(&trim(&chars_of(cells[k].text.as_str())));
        let link = anchor_of(&cells[k].children);
        r.push(CourseEntry { name, link, degree_slug: degree_slug.to_owned(), year });
        k = k + 1;
    }
    r
}

/// The courses listed on a structure page, in row order.
pub fn course_entries(page: &str, degree_slug: &str, year: u32) -> (r: Vec<CourseEntry>)
    ensures
        r@.len() == selected_cells(page@, course_cell_selector()).len(),
        forall|i: int|
            0 <= i < r@.len() ==> entry_of_cell(
                #[trigger] r@[i],
                selected_cells(page@, course_cell_selector())[i],
                degree_slug@,
                year,
            ),
{
    let cells = select_cells(page, "td.title");
    assert(cells@.map_values(|c: Cell| cell_view(c)).len() == cells@.len());
    let r = entries_from_cells(&cells, degree_slug, year);
    assert forall|i: int| 0 <= i < r@.len() implies entry_of_cell(
        #[trigger] r@[i],
        selected_cells(page@, course_cell_selector())[i],
        degree_slug@,
        year,
    ) by {
        assert(cells@.map_values(|c: Cell| cell_view(c))[i] == cell_view(cells@[i]));
    }
    r
}

/// The detail-page link of a course entry: a failure when the cell held no
/// link or an empty one.
pub fn course_link(entry: &CourseEntry) -> (r: Result<String, CourseFailure>)
    ensures
        match r {
            Ok(l) => opt_view(entry.link) == Some(l@) && l@.len() > 0,
            Err(e) => e == CourseFailure::MissingLink && (opt_view(entry.link) is None || opt_view(
                entry.link,
            ) == Some(Seq::<char>::empty())),
        },
{
    match &entry.link {
        Some(l) => {
            if l.as_str().is_empty() {
                Err(CourseFailure::MissingLink)
            } else {
                Ok(l.clone())
            }
        },
        None => Err(CourseFailure::MissingLink),
    }
}

} // verus!
