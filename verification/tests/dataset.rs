use news_corpus::prepare_dataset::{
    day_entries, get_raw_dataset, parse_date, split_dataset, ArticleEntry,
};

fn entries(n: usize) -> Vec<ArticleEntry> {
    (0..n)
        .map(|i| ArticleEntry {
            date: String::from("05-03-2024"),
            path: format!("scraped/cbc/05-03-2024/{i}.txt"),
            site: String::from("cbc"),
        })
        .collect()
}

fn paths(entries: &[ArticleEntry]) -> Vec<String> {
    entries.iter().map(|e| e.path.clone()).collect()
}

#[test]
fn month_names_become_numbers() {
    assert_eq!(parse_date("5-March-2024"), "5-03-2024");
    assert_eq!(parse_date("5-Mar-2024"), "5-03-2024");
    assert_eq!(parse_date("1-Feb-2023"), "1-02-2023");
    assert_eq!(parse_date("05-03-2024"), "05-03-2024");
    assert_eq!(parse_date("15-Dec-2024"), "15-Dec-2024");
    assert_eq!(parse_date("5-3-2024"), "5-3-2024");
}

#[test]
fn day_entries_carry_date_path_and_site() {
    let files = vec![String::from("scraped/cbc/5-March-2024/a.txt"), String::from("scraped/cbc/5-March-2024/b.txt")];
    let entries = day_entries("5-March-2024", files, "cbc");
    assert_eq!(entries.len(), 2);
    assert_eq!(entries[0].date, "5-03-2024");
    assert_eq!(entries[0].path, "scraped/cbc/5-March-2024/a.txt");
    assert_eq!(entries[0].site, "cbc");
    assert_eq!(entries[1].path, "scraped/cbc/5-March-2024/b.txt");
    assert_eq!(day_entries("x", Vec::new(), "cbc").len(), 0);
}

#[test]
fn split_cuts_at_the_given_place() {
    let dataset = split_dataset(entries(5), 2);
    assert_eq!(paths(&dataset.train), paths(&entries(5)[..2]));
    assert_eq!(paths(&dataset.test), paths(&entries(5)[2..]));
    let dataset = split_dataset(entries(3), 0);
    assert_eq!(dataset.train.len(), 0);
    assert_eq!(dataset.test.len(), 3);
    let dataset = split_dataset(entries(3), 3);
    assert_eq!(dataset.train.len(), 3);
    assert_eq!(dataset.test.len(), 0);
}

#[test]
fn raw_dataset_is_a_shuffled_partition() {
    let dataset = get_raw_dataset(entries(20), 4);
    assert_eq!(dataset.train.len(), 4);
    assert_eq!(dataset.test.len(), 16);
    let mut all = paths(&dataset.train);
    all.extend(paths(&dataset.test));
    assert_ne!(all, paths(&entries(20)));
    all.sort();
    let mut expected = paths(&entries(20));
    expected.sort();
    assert_eq!(all, expected);
}

#[test]
fn raw_dataset_is_the_same_on_every_run() {
    let a = get_raw_dataset(entries(10), 5);
    let b = get_raw_dataset(entries(10), 5);
    assert_eq!(paths(&a.train), paths(&b.train));
    assert_eq!(paths(&a.test), paths(&b.test));
}
