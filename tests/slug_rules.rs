use course_descriptions::degree::{parse_degree, to_degrees, Predegree};
use course_descriptions::slug::{
    join_slug_words, name_and_code_to_slug, name_to_level, slug_exceptions, to_lowercase_maybe,
    Level,
};

fn seed(id: &str, name: &str, code: &str) -> Predegree {
    Predegree { id: id.to_string(), name: name.to_string(), code: code.to_string() }
}

#[test]
fn level_follows_name() {
    assert_eq!(name_to_level("Informatica Magistrale"), Level::Master);
    assert_eq!(name_to_level("Master in Artificial Intelligence"), Level::Master);
    assert_eq!(name_to_level("Informatica"), Level::Bachelor);
    assert_eq!(Level::Master.path_segment(), "magistrale");
    assert_eq!(Level::Bachelor.path_segment(), "laurea");
}

#[test]
fn slug_drops_connectors_and_lowercases() {
    assert_eq!(
        name_and_code_to_slug("Informatica per il Management", "8014/000").as_deref(),
        Some("informaticamanagement")
    );
    assert_eq!(name_and_code_to_slug("Informatica Magistrale", "8028/000").as_deref(), Some("informatica"));
}

#[test]
fn slug_keeps_case_for_title_case_code() {
    assert_eq!(
        name_and_code_to_slug("Ingegneria e Scienze Informatiche", "9254/000").as_deref(),
        Some("IngegneriaScienzeInformatiche")
    );
}

#[test]
fn slug_hyphenates_for_kebab_code() {
    assert_eq!(
        name_and_code_to_slug("Artificial Intelligence", "9063/000").as_deref(),
        Some("artificial-intelligence")
    );
    assert_eq!(join_slug_words("a b c", "9063/000"), "a-b-c");
    assert_eq!(join_slug_words("a b c", "1111/000"), "abc");
}

#[test]
fn lowercase_only_when_asked() {
    assert_eq!(to_lowercase_maybe("AbC".to_string(), true), "abc");
    assert_eq!(to_lowercase_maybe("AbC".to_string(), false), "AbC");
}

#[test]
fn seed_with_empty_field_is_dropped() {
    assert!(parse_degree(&seed("", "Informatica", "8009/000")).is_none());
    assert!(parse_degree(&seed("informatica", "", "8009/000")).is_none());
    assert!(parse_degree(&seed("informatica", "Informatica", "")).is_none());
    let d = parse_degree(&seed("informatica", "Informatica", "8009/000")).unwrap();
    assert_eq!(d.name, "Informatica");
    assert_eq!(d.slug, "informatica");
    assert_eq!(d.site_slug, "informatica");
    assert_eq!(d.level, Level::Bachelor);
    assert!(d.year_urls.is_empty());
    let all = to_degrees(vec![
        seed("a", "", "1"),
        seed("informatica", "Informatica", "8009/000"),
        seed("", "X", "2"),
        seed("ai", "Artificial Intelligence", "9063/000"),
    ]);
    assert_eq!(all.len(), 2);
    assert_eq!(all[0].slug, "informatica");
    assert_eq!(all[1].site_slug, "artificial-intelligence");
}

#[test]
fn exception_table_lists_irregular_programmes() {
    let t = slug_exceptions();
    assert_eq!(t.len(), 2);
    assert_eq!(t[0], ("9254/000".to_string(), true, String::new()));
    assert_eq!(t[1], ("9063/000".to_string(), false, "-".to_string()));
}
