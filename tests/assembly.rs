use course_descriptions::degree::{
    analyze_and_write_degree, analyze_degree, analyze_year, compute_index_and_write_degrees,
    index_entry, parse_degree, probe_url, Degree, Predegree, YearCourses,
};
use course_descriptions::extract::{default_markers, scrape_link, CourseFailure};
use course_descriptions::html::{course_entries, course_link, first_structure_link};
use course_descriptions::slug::Level;

fn degree() -> Degree {
    parse_degree(&Predegree {
        id: "informatica".to_string(),
        name: "Informatica".to_string(),
        code: "8009/000".to_string(),
    })
    .unwrap()
}

const STRUCTURE_PAGE: &str = "<html><body><table>\
<tr><td class=\"title\"><a href=\"https://d/1\">  Course One </a></td></tr>\
<tr><td class=\"title\">Course Two</td></tr>\
</table></body></html>";

const ENGLISH_PAGE: &str = "<html><body><div id=\"u-content-intro\"><h1>Course One</h1></div>\
<div class=\"description-text\">Learning outcomes\nAll of it.\nReadings\n</div></body></html>";

#[test]
fn probe_url_names_level_slug_and_year() {
    assert_eq!(
        probe_url(Level::Master, "informatica", 2021),
        "https://corsi.unibo.it/magistrale/informatica/insegnamenti?year=2021"
    );
    let probes = degree().probe_urls(2024);
    let years: Vec<u32> = probes.iter().map(|p| p.0).collect();
    assert_eq!(years, vec![2020, 2021, 2022]);
    assert_eq!(probes[0].1, "https://corsi.unibo.it/laurea/informatica/insegnamenti?year=2020");
}

#[test]
fn probe_page_gives_first_listed_link() {
    let page = "<html><body><ul class=\"no-bullet\"><li><a href=\"https://s/2020\">a</a></li><li><a href=\"https://s/x\">b</a></li></ul></body></html>";
    assert_eq!(first_structure_link(page).as_deref(), Some("https://s/2020"));
    let mut d = degree();
    assert!(d.record_probe_page(2020, page));
    assert!(!d.record_probe_page(2021, "<html><body></body></html>"));
    assert!(!d.add_year_url(2019, "https://s/2019".to_string()));
    assert!(d.add_year_url(2022, "https://s/2022".to_string()));
    assert_eq!(d.year_urls, vec![(2020, "https://s/2020".to_string()), (2022, "https://s/2022".to_string())]);
}

#[test]
fn structure_page_with_one_missing_link() {
    let entries = course_entries(STRUCTURE_PAGE, "informatica", 2021);
    assert_eq!(entries.len(), 2);
    assert_eq!(entries[0].name, "Course One");
    assert_eq!(entries[0].link.as_deref(), Some("https://d/1"));
    assert_eq!(entries[1].name, "Course Two");
    assert_eq!(entries[1].link, None);
    let mut sections = Vec::new();
    let mut skipped = Vec::new();
    for e in &entries {
        match &e.link {
            None => skipped.push(CourseFailure::MissingLink),
            Some(_) => sections.push(
                scrape_link(&default_markers(), &e.degree_slug, e.year, "https://e/1", ENGLISH_PAGE).unwrap(),
            ),
        }
    }
    assert_eq!(skipped, vec![CourseFailure::MissingLink]);
    let doc = analyze_year("Informatica", 2021, &sections);
    assert!(doc.starts_with("= Informatica (2021)\n\n"));
    assert_eq!(doc.matches("\n== ").count(), 1);
    assert!(doc.contains("=== Learning outcomes\n\nAll of it"));
}

#[test]
fn year_document_is_heading_and_sections() {
    let doc = analyze_year("Informatica", 2021, &vec!["\nA".to_string(), "\nB".to_string()]);
    assert_eq!(doc, "= Informatica (2021)\n\n\nA\nB");
    assert_eq!(analyze_year("X", 7, &vec![]), "= X (7)\n\n");
}

#[test]
fn assembly_orders_years_and_repeats_identically() {
    let mut d = degree();
    d.add_year_url(2020, "u0".to_string());
    d.add_year_url(2021, "u1".to_string());
    d.add_year_url(2022, "u2".to_string());
    let reached = vec![
        YearCourses { year: 2022, sections: vec!["\nS".to_string()] },
        YearCourses { year: 2020, sections: vec![] },
        YearCourses { year: 1999, sections: vec!["\nZ".to_string()] },
    ];
    let docs = analyze_degree(&d, &reached);
    assert_eq!(
        docs,
        vec![
            (2020, "= Informatica (2020)\n\n".to_string()),
            (2022, "= Informatica (2022)\n\n\nS".to_string()),
        ]
    );
    assert_eq!(analyze_degree(&d, &reached), docs);
}

#[test]
fn index_lists_each_year() {
    let d = degree();
    let entry: String = index_entry("Informatica", "informatica", 2021).iter().collect();
    assert_eq!(
        entry,
        "\n\n== Informatica (2021)\n\nxref:degree-informatica-2021.adoc[web] | link:degree-informatica-2021.pdf[PDF] | link:degree-informatica-2021.adoc[Asciidoc]\n\n"
    );
    let docs = vec![(2020, "a".to_string()), (2021, "b".to_string())];
    let idx = analyze_and_write_degree(&d, &docs);
    assert_eq!(idx.matches("\n\n== Informatica (").count(), 2);
    assert!(idx.find("(2020)").unwrap() < idx.find("(2021)").unwrap());
    let full = compute_index_and_write_degrees(&vec!["x".to_string(), "y".to_string()]);
    assert!(full.starts_with("= Unified Course Descriptions for Some UNIBO Degrees\n\n"));
    assert!(full.ends_with("[Documentation]\n\nx\ny"));
}

#[test]
fn empty_or_absent_link_is_missing() {
    let mut entries = course_entries(STRUCTURE_PAGE, "informatica", 2021);
    assert_eq!(course_link(&entries[0]), Ok("https://d/1".to_string()));
    assert_eq!(course_link(&entries[1]), Err(CourseFailure::MissingLink));
    entries[0].link = Some(String::new());
    assert_eq!(course_link(&entries[0]), Err(CourseFailure::MissingLink));
}
