use course_descriptions::extract::{
    default_markers, describe_teaching, english_page_url, extract_body, get_desc_teaching_page,
    raw_body, resolve_english_url, scrape_link, select_end_marker, CourseFailure,
};
use course_descriptions::fixup::{apply_rules, missing_translations, render_description, replace};

fn pair(a: &str, b: &str) -> (String, String) {
    (a.to_string(), b.to_string())
}

const ENGLISH_PAGE: &str = "<html><body><div id=\"u-content-intro\"><h1>Numerical Computing</h1></div>\
<div class=\"description-text\">Intro\nLearning outcomes\n  Solve systems.\nTeaching methods\nx</div></body></html>";

#[test]
fn first_matching_pattern_wins_over_wildcard() {
    let m = select_end_marker(&default_markers(), "History of Informatics and Computer Science");
    assert_eq!(m, Ok("Office".to_string()));
    let m = select_end_marker(&default_markers(), "Numerical Computing");
    assert_eq!(m, Ok("Teaching".to_string()));
}

#[test]
fn wildcard_marker_is_the_fallback() {
    assert_eq!(select_end_marker(&default_markers(), "Algorithms"), Ok("Readings".to_string()));
    let no_wildcard = vec![pair("Numerical Computing", "Teaching")];
    assert_eq!(select_end_marker(&no_wildcard, "Algorithms"), Err(CourseFailure::MissingWildcardMarker));
    assert_eq!(
        select_end_marker(&no_wildcard, "Numerical Computing"),
        Err(CourseFailure::MissingWildcardMarker)
    );
    let wildcard_first = vec![pair("*", "End"), pair("Algo", "Stop")];
    assert_eq!(select_end_marker(&wildcard_first, "Algorithms"), Ok("Stop".to_string()));
}

#[test]
fn fixups_act_on_cumulative_output() {
    let rules = vec![pair("A", "B"), pair("B", "C")];
    assert_eq!(apply_rules(&rules, "A".to_string()), "C");
    let reversed = vec![pair("B", "C"), pair("A", "B")];
    assert_eq!(apply_rules(&reversed, "A".to_string()), "B");
    assert_eq!(replace("BASI DI DATI e BASI".to_string(), &pair("BASI", "X")), "X DI DATI e X");
    assert_eq!(missing_translations().len(), 5);
}

#[test]
fn render_description_applies_the_table() {
    assert_eq!(
        render_description("BASI DI DATI\nLearning outcomes\nFONDAMENTI DI x".to_string()),
        "\nDATABASES\n=== Learning outcomes\n x"
    );
}

#[test]
fn body_between_markers_with_two_character_back_off() {
    let block = "Intro text.\nLearning outcomes\nBody here.\nTeaching\nFooter.";
    assert_eq!(raw_body(block, "Teaching"), "Learning outcomes\nBody here");
    assert_eq!(extract_body(block, "Teaching"), "Learning outcomes\n\nBody here");
}

#[test]
fn body_is_empty_without_start_label() {
    assert_eq!(raw_body("Intro\nTeaching\n", "Teaching"), "");
    assert_eq!(raw_body("Learning outcomes\nabc", "Missing"), "Learning outcomes\na");
    assert_eq!(raw_body("Tx", "T"), "");
}

#[test]
fn english_url_is_the_quoted_http_link() {
    assert_eq!(
        resolve_english_url("<a href=\"https://www.unibo.it/en/t/1\">English</a>").as_deref(),
        Some("https://www.unibo.it/en/t/1")
    );
    assert_eq!(resolve_english_url("<a href=\"/en\">English</a>"), None);
    assert_eq!(resolve_english_url("see http://x without quote"), None);
}

#[test]
fn english_page_url_from_detail_page() {
    let page = "<html><body><ul><li class=\"language-en\"><a href=\"https://www.unibo.it/en/t/1\">English</a></li></ul></body></html>";
    assert_eq!(english_page_url(page), Ok("https://www.unibo.it/en/t/1".to_string()));
    assert_eq!(english_page_url("<html><body><p>no</p></body></html>"), Err(CourseFailure::MissingEnglishVariant));
    let relative = "<html><body><ul><li class=\"language-en\"><a href=\"/en\">English</a></li></ul></body></html>";
    assert_eq!(english_page_url(relative), Err(CourseFailure::MissingEnglishUrl));
}

#[test]
fn teaching_page_becomes_a_section() {
    let section = get_desc_teaching_page(&default_markers(), "informatica", 2021, "https://e/1", ENGLISH_PAGE);
    assert_eq!(
        section,
        Ok("\n== https://e/1[Numerical Computing]\n\nlink:degree-informatica-2021.pdf[PDF], xref:degree-informatica-2021.adoc[ADOC].\n\nLearning outcomes\n\nSolve systems".to_string())
    );
    let fixed = scrape_link(&default_markers(), "informatica", 2021, "https://e/1", ENGLISH_PAGE).unwrap();
    assert!(fixed.starts_with("\n\n== https://e/1[Numerical Computing]"));
    assert!(fixed.ends_with("=== Learning outcomes\n\nSolve systems"));
}

#[test]
fn teaching_page_without_parts_fails() {
    let no_title = "<html><body><div class=\"description-text\">x</div></body></html>";
    assert_eq!(
        get_desc_teaching_page(&default_markers(), "s", 2021, "u", no_title),
        Err(CourseFailure::MissingTitle)
    );
    let no_desc = "<html><body><div id=\"u-content-intro\"><h1>T</h1></div></body></html>";
    assert_eq!(
        get_desc_teaching_page(&default_markers(), "s", 2021, "u", no_desc),
        Err(CourseFailure::MissingDescription)
    );
    assert_eq!(
        describe_teaching(&vec![], "s", 2021, "u", "T", "b"),
        Err(CourseFailure::MissingWildcardMarker)
    );
}
