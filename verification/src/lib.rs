//! A corpus of news articles: crawling the sites, reading headline, date and
//! paragraphs off each article page, deciding where each article is stored,
//! and counting the tokens of what was stored.
//!
//! The library decides and computes; fetching pages and touching files is
//! left to its caller.

pub mod article;
pub mod content;
pub mod date;
pub mod error;
pub mod links;
pub mod markup;
pub mod pattern;
pub mod prepare_dataset;
pub mod preprocess;
pub mod scrape_data;
pub mod site;
pub mod text;
pub mod tf_idf;
pub mod token_map;
pub mod writer;
