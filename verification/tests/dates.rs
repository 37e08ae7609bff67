use news_corpus::date::{
    choose_date, extract_date, first_attribute, first_text_node, get_date_from_div,
    get_date_from_span, get_date_from_timestamp, is_canonical, write_march_as_numeral,
};
use news_corpus::error::ScrapeError;

fn page(body: &str) -> String {
    format!("<html><head><title>T</title></head><body>{body}</body></html>")
}

#[test]
fn timestamp_strategy_yields_canonical_date() {
    let html = page(r#"<time class="timeStamp" datetime="2024-03-05T10:00:00Z">Mar 5</time>"#);
    let date = get_date_from_timestamp(&html).unwrap();
    assert_eq!(date, "05-03-2024");
    assert_eq!(date.chars().count(), 10);
    assert!(is_canonical(&date));
    assert_eq!(extract_date(&html), Ok(String::from("05-03-2024")));
}

#[test]
fn timestamp_strategy_reads_first_element_only() {
    let html = page(
        r#"<time class="timeStamp">no attribute</time><time class="timeStamp" datetime="2024-03-05">x</time>"#,
    );
    assert_eq!(get_date_from_timestamp(&html), None);
}

#[test]
fn timestamp_strategy_leaves_other_text_as_it_is() {
    let html = page(r#"<time class="timeStamp" datetime="yesterday"></time>"#);
    assert_eq!(get_date_from_timestamp(&html), Some(String::from("yesterday")));
}

#[test]
fn timestamp_strategy_needs_the_class() {
    let html = page(r#"<time datetime="2024-03-05T10:00:00Z"></time>"#);
    assert_eq!(get_date_from_timestamp(&html), None);
}

#[test]
fn published_strategy_writes_march_as_bare_numeral() {
    let html = page(r#"<span class="published-date__since">Published Mar 5, 2024</span>"#);
    let date = get_date_from_div(&html).unwrap();
    assert_eq!(date, "5-3-2024");
    assert!(!is_canonical(&date));
    assert_eq!(extract_date(&html), Ok(String::from("5-3-2024")));
}

#[test]
fn published_strategy_keeps_other_month_abbreviations() {
    let html = page(r#"<span class="published-date__since">Published Dec 15, 2024</span>"#);
    assert_eq!(get_date_from_div(&html), Some(String::from("15-Dec-2024")));
}

#[test]
fn published_strategy_reads_first_text_node() {
    let html = page(
        r#"<span class="published-date__since"><b>Published Feb 1, 2023</b> and more</span>"#,
    );
    assert_eq!(get_date_from_div(&html), Some(String::from("1-Feb-2023")));
}

#[test]
fn published_strategy_yields_nothing_without_text() {
    let html = page(r#"<span class="published-date__since"></span>"#);
    assert_eq!(get_date_from_div(&html), None);
}

#[test]
fn byline_strategy_keeps_full_month_name() {
    let html = page(r#"<span class="article__published-date">Tue., March 5, 2024</span>"#);
    let date = get_date_from_span(&html).unwrap();
    assert_eq!(date, "5-March-2024");
    assert_eq!(extract_date(&html), Ok(String::from("5-March-2024")));
}

#[test]
fn byline_strategy_keeps_what_surrounds_the_match() {
    let html = page(r#"<span class="article__published-date">On Mon., June 12, 2023 at noon</span>"#);
    assert_eq!(get_date_from_span(&html), Some(String::from("On 12-June-2023 at noon")));
}

#[test]
fn page_without_date_elements_has_no_date() {
    let html = page("<p>No date here</p>");
    assert_eq!(get_date_from_timestamp(&html), None);
    assert_eq!(get_date_from_div(&html), None);
    assert_eq!(get_date_from_span(&html), None);
    assert_eq!(extract_date(&html), Err(ScrapeError::DateNotFound));
}

#[test]
fn earlier_strategy_wins() {
    let html = page(concat_all(&[
        r#"<span class="article__published-date">Tue., March 5, 2024</span>"#,
        r#"<span class="published-date__since">Published Apr 6, 2021</span>"#,
        r#"<time class="timeStamp" datetime="2020-01-02T00:00:00Z"></time>"#,
    ]).as_str());
    assert_eq!(extract_date(&html), Ok(String::from("02-01-2020")));
    let html = page(concat_all(&[
        r#"<span class="article__published-date">Tue., March 5, 2024</span>"#,
        r#"<span class="published-date__since">Published Apr 6, 2021</span>"#,
    ]).as_str());
    assert_eq!(extract_date(&html), Ok(String::from("6-Apr-2021")));
}

fn concat_all(parts: &[&str]) -> String {
    let mut out = String::new();
    for part in parts {
        out.push_str(part);
    }
    out
}

#[test]
fn choose_date_takes_first_that_is_there() {
    let a = || Some(String::from("a"));
    let b = || Some(String::from("b"));
    let c = || Some(String::from("c"));
    assert_eq!(choose_date(a(), b(), c()), Ok(String::from("a")));
    assert_eq!(choose_date(None, b(), c()), Ok(String::from("b")));
    assert_eq!(choose_date(None, None, c()), Ok(String::from("c")));
    assert_eq!(choose_date(a(), None, None), Ok(String::from("a")));
    assert_eq!(choose_date(None, None, None), Err(ScrapeError::DateNotFound));
}

#[test]
fn first_text_node_of_first_element() {
    let texts = vec![vec![String::from("one"), String::from("two")], vec![String::from("three")]];
    assert_eq!(first_text_node(&texts), Some(&String::from("one")));
    let texts: Vec<Vec<String>> = vec![vec![], vec![String::from("three")]];
    assert_eq!(first_text_node(&texts), None);
    let texts: Vec<Vec<String>> = vec![];
    assert_eq!(first_text_node(&texts), None);
}

#[test]
fn march_becomes_three_everywhere() {
    assert_eq!(write_march_as_numeral("5-Mar-2024"), "5-3-2024");
    assert_eq!(write_march_as_numeral("5-March-2024"), "5-3ch-2024");
    assert_eq!(write_march_as_numeral("5-Feb-2024"), "5-Feb-2024");
}

#[test]
fn canonical_dates_are_recognised() {
    assert!(is_canonical("05-03-2024"));
    assert!(is_canonical("31-12-1999"));
    assert!(!is_canonical("5-3-2024"));
    assert!(!is_canonical("5-March-2024"));
    assert!(!is_canonical("05/03/2024"));
    assert!(!is_canonical("05-03-20245"));
    assert!(!is_canonical("0a-03-2024"));
    assert!(!is_canonical(""));
}

#[test]
fn first_attribute_of_first_element() {
    let attrs = vec![Some(String::from("2024-03-05")), None];
    assert_eq!(first_attribute(&attrs), Some(&String::from("2024-03-05")));
    let attrs = vec![None, Some(String::from("2024-03-05"))];
    assert_eq!(first_attribute(&attrs), None);
    assert_eq!(first_attribute(&Vec::new()), None);
}
