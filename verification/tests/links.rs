use news_corpus::error::ScrapeError;
use news_corpus::links::{collect_links, get_news_links, make_absolute};
use news_corpus::site::{cbc, the_star, NewsSite};

fn listing(body: &str) -> String {
    format!("<html><head><title>News</title></head><body>{body}</body></html>")
}

#[test]
fn absolute_url_is_scheme_prefix_href() {
    assert_eq!(make_absolute("cbc.ca", "/news/sample-story"), "https://cbc.ca/news/sample-story");
    assert_eq!(make_absolute("", ""), "https://");
}

#[test]
fn collect_links_keeps_only_hrefs_with_the_filter() {
    let hrefs = vec![
        Some(String::from("/news/one")),
        Some(String::from("/sports/two")),
        None,
        Some(String::from("/world/news/three")),
        Some(String::from("/news")),
    ];
    assert_eq!(
        collect_links(&hrefs, "/news/", "cbc.ca"),
        vec!["https://cbc.ca/news/one", "https://cbc.ca/world/news/three"]
    );
}

#[test]
fn collect_links_without_match_is_empty() {
    let hrefs = vec![Some(String::from("/sports/two")), None];
    assert_eq!(collect_links(&hrefs, "/news/", "cbc.ca"), Vec::<String>::new());
    assert_eq!(collect_links(&Vec::new(), "/news/", "cbc.ca"), Vec::<String>::new());
}

#[test]
fn discovery_returns_matching_anchors_in_document_order() {
    let html = listing(
        r#"<a class="card" href="/news/b">B</a><a href="/news/plain">no class</a><a class="card" href="/radio/x">X</a><a class="card">no href</a><div><a class="card big" href="/news/a">A</a></div>"#,
    );
    assert_eq!(
        get_news_links(&html, &cbc()),
        Ok(vec![String::from("https://cbc.ca/news/b"), String::from("https://cbc.ca/news/a")])
    );
}

#[test]
fn discovery_uses_the_site_filter_and_prefix() {
    let html = listing(
        r#"<a class="c-mediacard" href="/news/world/1">1</a><a class="c-mediacard" href="/opinion/2">2</a>"#,
    );
    assert_eq!(
        get_news_links(&html, &the_star()),
        Ok(vec![String::from("https://thestar.com/news/world/1")])
    );
    let site = NewsSite { link_path_filter: String::from("/opinion/"), ..the_star() };
    assert_eq!(get_news_links(&html, &site), Ok(vec![String::from("https://thestar.com/opinion/2")]));
}

#[test]
fn listing_without_matching_anchor_is_empty_not_an_error() {
    let html = listing(r#"<a class="card" href="/sports/x">X</a><p>nothing</p>"#);
    assert_eq!(get_news_links(&html, &cbc()), Ok(Vec::<String>::new()));
    assert_eq!(get_news_links("", &cbc()), Ok(Vec::<String>::new()));
}

#[test]
fn invalid_link_selector_is_a_markup_error() {
    let site = NewsSite { link_selector: String::from("a..card"), ..cbc() };
    let html = listing(r#"<a class="card" href="/news/x">X</a>"#);
    assert_eq!(get_news_links(&html, &site), Err(ScrapeError::Markup));
}

#[test]
fn shipped_sites_are_valid() {
    assert_eq!(cbc().validate(), Ok(()));
    assert_eq!(the_star().validate(), Ok(()));
    assert_eq!(news_corpus::site::national_post().validate(), Ok(()));
}

#[test]
fn empty_or_invalid_selector_makes_a_site_invalid() {
    let site = NewsSite { link_selector: String::new(), ..cbc() };
    assert_eq!(site.validate(), Err(ScrapeError::Markup));
    let site = NewsSite { body_selector: String::from("div..story"), ..cbc() };
    assert_eq!(site.validate(), Err(ScrapeError::Markup));
    let site = NewsSite { paragraph_selector: String::from("p["), ..cbc() };
    assert_eq!(site.validate(), Err(ScrapeError::Markup));
}
