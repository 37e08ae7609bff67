use news_corpus::preprocess::{
    create_word_deindexer, headline_text, index_tokens, read_article_text, Deindexer, Indexer,
};
use news_corpus::tf_idf::{
    count_document, count_results, count_tokens, get_tfidf_distribution, term_count,
    DocumentFrequencyCounter, TfIdfResult,
};
use news_corpus::token_map::TokenMap;
use std::collections::HashMap;

fn strings(words: &[&str]) -> Vec<String> {
    words.iter().map(|w| String::from(*w)).collect()
}

fn s(word: &str) -> String {
    String::from(word)
}

#[test]
fn token_map_inserts_and_replaces() {
    let map = TokenMap::new();
    assert_eq!(map.len(), 0);
    assert_eq!(map.get(&s("a")), None);
    let map = map.insert(s("a"), 1).insert(s("b"), 2).insert(s("a"), 3);
    assert_eq!(map.len(), 2);
    assert_eq!(map.get(&s("a")), Some(3));
    assert_eq!(map.get(&s("b")), Some(2));
    assert_eq!(map.get(&s("c")), None);
    assert_eq!(map.token_at(0), "a");
    assert_eq!(map.value_at(0), 3);
    assert_eq!(map.token_at(1), "b");
    assert_eq!(map.value_at(1), 2);
}

#[test]
fn indexer_gives_known_tokens_their_index() {
    let indexer = Indexer::new(TokenMap::new().insert(s("storm"), 0).insert(s("ice"), 1));
    assert_eq!(indexer.get_index(&s("storm")), 0);
    assert_eq!(indexer.get_index(&s("ice")), 1);
}

#[test]
fn indexer_gives_unknown_tokens_one_more_than_the_count() {
    let indexer = Indexer::new(TokenMap::new().insert(s("storm"), 0).insert(s("ice"), 1));
    assert_eq!(indexer.get_index(&s("snow")), 3);
    assert_eq!(Indexer::new(TokenMap::new()).get_index(&s("snow")), 1);
}

#[test]
fn encode_sequence_maps_each_token() {
    let indexer = Indexer::new(TokenMap::new().insert(s("storm"), 0).insert(s("ice"), 1));
    assert_eq!(indexer.encode_sequence(&strings(&["ice", "snow", "storm", "ice"])), vec![1, 3, 0, 1]);
    assert_eq!(indexer.encode_sequence(&Vec::new()), Vec::<usize>::new());
}

#[test]
fn deindexer_gives_tokens_and_unknown() {
    let mut map = HashMap::new();
    map.insert(0, s("storm"));
    map.insert(1, s("ice"));
    map.insert(2, s("hits"));
    let deindexer = Deindexer::new(map);
    assert_eq!(deindexer.get_token(0), "storm");
    assert_eq!(deindexer.get_token(2), "hits");
    assert_eq!(deindexer.get_token(4), "UNK");
    assert_eq!(deindexer.get_token(100), "UNK");
    assert_eq!(deindexer.decode_sequence(&vec![1, 0, 7]), vec!["ice", "storm", "UNK"]);
}

#[test]
fn deindexer_undoes_indexer() {
    let tokens = strings(&["ice", "storm", "hits", "ice", "quebec", "storm"]);
    let indexer = index_tokens(&tokens).unwrap();
    let deindexer = create_word_deindexer(&indexer);
    for token in &tokens {
        let index = indexer.get_index(token);
        assert!(index < 4);
        assert_eq!(&deindexer.get_token(index), token);
    }
    assert_eq!(indexer.get_index(&s("snow")), 5);
    assert_eq!(deindexer.get_token(5), "UNK");
}

#[test]
fn tokens_are_numbered_from_zero_without_repeats() {
    let tokens = strings(&["b", "a", "b", "c", "a"]);
    let indexer = index_tokens(&tokens).unwrap();
    let mut indices = vec![
        indexer.get_index(&s("a")),
        indexer.get_index(&s("b")),
        indexer.get_index(&s("c")),
    ];
    indices.sort();
    assert_eq!(indices, vec![0, 1, 2]);
    assert_eq!(indexer.encode_sequence(&tokens), vec![0, 1, 0, 2, 1]);
}

#[test]
fn no_tokens_no_indexer() {
    assert!(index_tokens(&Vec::new()).is_none());
}

#[test]
fn article_text_is_lowercased_unless_empty() {
    assert_eq!(read_article_text("Hello World\n\n"), Some(s("hello world\n\n")));
    assert_eq!(read_article_text(""), None);
}

#[test]
fn headline_is_stem_with_spaces() {
    assert_eq!(headline_text("sample_story"), "sample story");
    assert_eq!(headline_text("a__b"), "a  b");
    assert_eq!(headline_text("plain"), "plain");
}

#[test]
fn document_frequency_is_zero_for_unseen_tokens() {
    let counter = DocumentFrequencyCounter::new(TokenMap::new().insert(s("ice"), 3), 10);
    assert_eq!(counter.get_doc_freq(&s("ice")), 3);
    assert_eq!(counter.get_doc_freq(&s("snow")), 0);
    assert_eq!(counter.n_documents, 10);
}

#[test]
fn term_count_counts_occurrences() {
    let tokens = strings(&["ice", "storm", "ice", "ice"]);
    assert_eq!(term_count(&s("ice"), &tokens), 3);
    assert_eq!(term_count(&s("storm"), &tokens), 1);
    assert_eq!(term_count(&s("snow"), &tokens), 0);
    assert_eq!(term_count(&s("ice"), &Vec::new()), 0);
}

#[test]
fn count_tokens_counts_every_occurrence() {
    let counter = count_tokens(TokenMap::new().insert(s("ice"), 5), &strings(&["ice", "storm", "ice"]));
    assert_eq!(counter.get(&s("ice")), Some(7));
    assert_eq!(counter.get(&s("storm")), Some(1));
    assert_eq!(counter.get(&s("snow")), None);
}

#[test]
fn count_document_counts_each_token_once() {
    let counter = count_document(TokenMap::new().insert(s("ice"), 5), &strings(&["ice", "storm", "ice"]), 5);
    assert_eq!(counter.get(&s("ice")), Some(6));
    assert_eq!(counter.get(&s("storm")), Some(1));
    let counter = count_document(counter, &strings(&["storm", "storm"]), 6);
    assert_eq!(counter.get(&s("ice")), Some(6));
    assert_eq!(counter.get(&s("storm")), Some(2));
}

#[test]
fn tfidf_result_keeps_token_and_weight() {
    let a = TfIdfResult::new(&s("ice"), 12);
    let b = TfIdfResult::new(&s("ice"), 99);
    let c = TfIdfResult::new(&s("storm"), 12);
    assert_eq!(a.token(), "ice");
    assert_eq!(a.tfidf(), 12);
    assert!(a.same_token(&b));
    assert!(!a.same_token(&c));
}

#[test]
fn distribution_counts_tokens_by_weight_in_rising_order() {
    let docs = vec![
        vec![
            TfIdfResult::new(&s("ice"), 30),
            TfIdfResult::new(&s("storm"), 10),
            TfIdfResult::new(&s("ice"), 30),
            TfIdfResult::new(&s("hits"), 10),
        ],
        vec![],
        vec![TfIdfResult::new(&s("ice"), 20), TfIdfResult::new(&s("snow"), 10)],
    ];
    assert_eq!(count_results(&docs), Some(6));
    assert_eq!(get_tfidf_distribution(&docs), vec![(10, 3), (20, 1), (30, 1)]);
    assert_eq!(get_tfidf_distribution(&Vec::new()), Vec::<(u64, usize)>::new());
}
