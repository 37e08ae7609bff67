use news_corpus::article::Article;
use news_corpus::writer::{derive_filename, derive_slug, render, save_article, site_root};

#[test]
fn slug_strips_site_names_and_lowercases() {
    assert_eq!(derive_slug("Sample Story | National Post"), "sample_story");
    assert_eq!(derive_slug("Sample Story | CBC News"), "sample_story");
    assert_eq!(derive_slug("Sample Story | The Star"), "sample_story");
    assert_eq!(derive_slug("Ice Storm Hits Québec"), "ice_storm_hits_québec");
    assert_eq!(derive_slug(""), "");
}

#[test]
fn filename_has_the_extension() {
    assert_eq!(derive_filename("Sample Story | National Post"), "sample_story.txt");
    assert_eq!(derive_filename(""), ".txt");
}

#[test]
fn filename_is_the_same_for_the_same_title() {
    let title = "A Tale of Two Cities | CBC News";
    assert_eq!(derive_filename(title), derive_filename(title));
    assert_eq!(derive_filename(title), "a_tale_of_two_cities.txt");
}

#[test]
fn slug_holds_no_space_and_no_site_name() {
    let titles = [
        "Sample Story | National Post",
        " | CBC | CBC News News",
        "A | The Star | National Post B",
        "  leading and trailing  ",
        "x |  | The StarCBC News",
    ];
    for title in titles {
        let slug = derive_slug(title);
        assert!(!slug.contains(' '));
        assert!(!slug.contains(" | CBC News"));
        assert!(!slug.contains(" | National Post"));
        assert!(!slug.contains(" | The Star"));
    }
    assert_eq!(derive_slug(" | CBC | CBC News News"), "_|_cbc_news");
}

#[test]
fn site_names_are_stripped_one_after_the_other() {
    assert_eq!(derive_slug("A | CBC News | National Post | The Star"), "a");
    assert_eq!(derive_slug("A | The Star | CBC News"), "a");
    assert_eq!(derive_slug("A | CBC | The Star News"), "a_|_cbc_news");
}

#[test]
fn content_is_each_paragraph_and_a_blank_line() {
    assert_eq!(render(&vec![String::from("Hello world")]), "Hello world\n\n");
    assert_eq!(render(&vec![String::from("a"), String::from("b")]), "a\n\nb\n\n");
    assert_eq!(render(&Vec::new()), "");
}

#[test]
fn article_file_is_named_by_date_and_title() {
    let article = Article {
        title: String::from("Sample Story | National Post"),
        contents: vec![String::from("Hello world")],
        date: String::from("05-03-2024"),
    };
    let root = site_root("national_post");
    assert_eq!(root, "scraped/national_post");
    let file = save_article(&article, &root);
    assert_eq!(file.dir, "scraped/national_post/05-03-2024");
    assert_eq!(file.path, "scraped/national_post/05-03-2024/sample_story.txt");
    assert_eq!(file.content, "Hello world\n\n");
}

#[test]
fn same_date_and_slug_give_the_same_file() {
    let first = Article {
        title: String::from("Same Title | CBC News"),
        contents: vec![String::from("old")],
        date: String::from("01-01-2024"),
    };
    let second = Article {
        title: String::from("same title"),
        contents: vec![String::from("new")],
        date: String::from("01-01-2024"),
    };
    let a = save_article(&first, "scraped/cbc");
    let b = save_article(&second, "scraped/cbc");
    assert_eq!(a.path, b.path);
    assert_eq!(b.content, "new\n\n");
}
