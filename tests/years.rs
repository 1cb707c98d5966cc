use course_descriptions::year::{academic_year, current_academic_year, scraping_window};

#[test]
fn academic_year_opens_in_september() {
    assert_eq!(academic_year(2024, 9), 2024);
    assert_eq!(academic_year(2024, 12), 2024);
    assert_eq!(academic_year(2024, 8), 2023);
    assert_eq!(academic_year(2024, 1), 2023);
}

#[test]
fn window_skips_current_and_previous_year() {
    let w = scraping_window(2024);
    assert_eq!(w, vec![2020, 2021, 2022]);
    assert!(!w.contains(&2024) && !w.contains(&2023));
    let now = current_academic_year();
    let w = scraping_window(now);
    assert!(!w.contains(&now) && !w.contains(&(now - 1)));
}

#[test]
fn window_shifts_by_one_in_september() {
    let before = scraping_window(academic_year(2024, 8));
    let after = scraping_window(academic_year(2024, 9));
    assert_eq!(before.len(), 3);
    assert_eq!(after.iter().map(|y| y - 1).collect::<Vec<_>>(), before);
}

#[test]
fn window_near_year_zero_is_short() {
    assert_eq!(scraping_window(2), vec![0]);
    assert!(scraping_window(1).is_empty());
    assert!(scraping_window(0).is_empty());
}
