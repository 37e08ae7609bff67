use news_corpus::preprocess::{
    all_headline_tokens, create_word_indexer, tokenize_article_text, tokenize_headline_text,
};
use news_corpus::tf_idf::{get_token_article_frequencies, get_token_headline_frequencies};

fn strings(words: &[&str]) -> Vec<String> {
    words.iter().map(|w| String::from(*w)).collect()
}

#[test]
fn headline_tokens_are_pieces_of_the_headline() {
    let tokenizer = nlprule::Tokenizer::default();
    let tokens = tokenize_headline_text(&tokenizer, "ice_storm_hits_town");
    assert_eq!(tokens, vec!["ice", "storm", "hits", "town"]);
    for token in &tokens {
        assert!(!token.is_empty());
        assert!("ice storm hits town".contains(token.as_str()));
    }
}

#[test]
fn headline_tokens_of_all_stems_come_in_order() {
    let tokenizer = nlprule::Tokenizer::default();
    let all = all_headline_tokens(&tokenizer, &strings(&["ice_storm", "", "ice_age"]));
    assert_eq!(all, vec!["ice", "storm", "ice", "age"]);
    assert_eq!(all_headline_tokens(&tokenizer, &Vec::new()), Vec::<String>::new());
}

#[test]
fn word_indexer_numbers_the_headline_tokens() {
    let tokenizer = nlprule::Tokenizer::default();
    let indexer = create_word_indexer(&tokenizer, &strings(&["ice_storm", "ice_age"])).unwrap();
    let mut indices = vec![
        indexer.get_index(&String::from("ice")),
        indexer.get_index(&String::from("storm")),
        indexer.get_index(&String::from("age")),
    ];
    indices.sort();
    assert_eq!(indices, vec![0, 1, 2]);
    assert_eq!(indexer.get_index(&String::from("snow")), 4);
}

#[test]
fn no_stems_or_no_tokens_give_no_indexer() {
    let tokenizer = nlprule::Tokenizer::default();
    assert!(create_word_indexer(&tokenizer, &Vec::new()).is_none());
    assert!(create_word_indexer(&tokenizer, &strings(&["", "_"])).is_none());
}

#[test]
fn headline_frequencies_count_every_occurrence() {
    let tokenizer = nlprule::Tokenizer::default();
    let counter =
        get_token_headline_frequencies(&tokenizer, &strings(&["ice_storm_ice", "ice_age", ""]));
    assert_eq!(counter.n_documents, 3);
    assert_eq!(counter.get_doc_freq(&String::from("ice")), 3);
    assert_eq!(counter.get_doc_freq(&String::from("storm")), 1);
    assert_eq!(counter.get_doc_freq(&String::from("age")), 1);
    assert_eq!(counter.get_doc_freq(&String::from("snow")), 0);
    let counter = get_token_headline_frequencies(&tokenizer, &Vec::new());
    assert_eq!(counter.n_documents, 0);
    assert_eq!(counter.get_doc_freq(&String::from("ice")), 0);
}

#[test]
fn article_frequencies_count_documents() {
    let tokenizer = nlprule::Tokenizer::default();
    let bodies = vec![
        Some(String::from("Ice storm. Ice again.\n\n")),
        None,
        Some(String::new()),
        Some(String::from("The ice age\n\n")),
    ];
    let counter = get_token_article_frequencies(&tokenizer, &bodies);
    assert_eq!(counter.n_documents, 4);
    assert_eq!(counter.get_doc_freq(&String::from("ice")), 2);
    assert_eq!(counter.get_doc_freq(&String::from("storm")), 1);
    assert_eq!(counter.get_doc_freq(&String::from("Ice")), 0);
}

#[test]
fn article_tokens_are_of_the_lowercased_text() {
    let tokenizer = nlprule::Tokenizer::default();
    assert_eq!(tokenize_article_text(&tokenizer, ""), None);
    let tokens = tokenize_article_text(&tokenizer, "Ice Storm").unwrap();
    assert_eq!(tokens, vec!["ice", "storm"]);
}
