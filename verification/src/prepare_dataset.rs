//! The stored articles, split into a training and a test set.

use crate::text::{replace, replaced};
use rand::seq::SliceRandom;
use rand::SeedableRng;
use vstd::prelude::*;

verus! {

/// The seed of the shuffle that precedes the split.
pub const SHUFFLE_SEED: u64 = 12345;

/// One stored article.
#[derive(Debug)]
pub struct ArticleEntry {
    /// The date, as the name of the article's directory gives it.
    pub date: String,
    /// Where the article's file lies.
    pub path: String,
    /// The name of the source.
    pub site: String,
}

/// The articles for training and those for testing.
#[derive(Debug)]
pub struct RawDataset {
    pub train: Vec<ArticleEntry>,
    pub test: Vec<ArticleEntry>,
}

/// The name of a date directory with the month names that it may hold written
/// as numbers: "March" and "Mar" as 03, "Feb" as 02.
pub open spec fn parsed_date(dir_name: Seq<char>) -> Seq<char> {
    replaced(replaced(replaced(dir_name, "March"@, "03"@), "Mar"@, "03"@), "Feb"@, "02"@)
}

/// Reads the date off the name of a date directory.
pub fn parse_date(dir_name: &str) -> (date: String)
    ensures
        date@ == parsed_date(dir_name@),
{
    let a = replace(dir_name, "March", "03");
    let b = replace(a.as_str(), "Mar", "03");
    replace(b.as_str(), "Feb", "02")
}

/// The entries of one date directory of a source: one for each file, in the
/// order of the files.
pub fn day_entries(dir_name: &str, files: Vec<String>, site: &str) -> (entries: Vec<ArticleEntry>)
    ensures
        entries.len() == files.len(),
        forall|i: int|
            0 <= i < entries.len() ==> {
                &&& (#[trigger] entries[i]).date@ == parsed_date(dir_name@)
                &&& entries[i].path == files[i]
                &&& entries[i].site@ == site@
            },
{
    let mut entries: Vec<ArticleEntry> = Vec::new();
    let mut files = files;
    let ghost all = files@;
    let mut i: usize = 0;
    let n = files.len();
    while i < n
        invariant
            i <= n,
            n == all.len(),
            files.len() == n,
            entries.len() == i,
            forall|j: int| i <= j < n ==> files[j] == all[j],
            forall|j: int|
                0 <= j < i ==> {
                    &&& (#[trigger] entries[j]).date@ == parsed_date(dir_name@)
                    &&& entries[j].path == all[j]
                    &&& entries[j].site@ == site@
                },
        decreases n - i,
    {
        let mut path = String::new();
        std::mem::swap(&mut path, &mut files[i]);
        entries.push(ArticleEntry { date: parse_date(dir_name), path, site: site.to_owned() });
        i += 1;
    }
    entries
}

/// `rand::seq::SliceRandom::shuffle` with a `rand::rngs::StdRng` that
/// `rand::SeedableRng::seed_from_u64` made of the seed: the entries are
/// rearranged in place, none is lost and none is added.
#[verifier::external_body]
fn shuffle(entries: &mut Vec<ArticleEntry>, seed: u64)
    ensures
        final(entries)@.to_multiset() == old(entries)@.to_multiset(),
{
    entries.shuffle(&mut rand::rngs::StdRng::seed_from_u64(seed));
}

/// Cuts a list of articles in two: the first `n_train` for training, the
/// rest for testing.
pub fn split_dataset(articles: Vec<ArticleEntry>, n_train: usize) -> (dataset: RawDataset)
    requires
        n_train <= articles.len(),
    ensures
        dataset.train@ == articles@.take(n_train as int),
        dataset.test@ == articles@.skip(n_train as int),
{
    let mut train = articles;
    let test = train.split_off(n_train);
    assert(train@ =~= articles@.take(n_train as int));
    assert(test@ =~= articles@.skip(n_train as int));
    RawDataset { train, test }
}

/// Shuffles the articles and cuts them in two: `n_train` for training, the
/// rest for testing. Every article is in exactly one of the two sets.
pub fn get_raw_dataset(articles: Vec<ArticleEntry>, n_train: usize) -> (dataset: RawDataset)
    requires
        n_train <= articles.len(),
    ensures
        dataset.train.len() == n_train,
        dataset.train.len() + dataset.test.len() == articles.len(),
        (dataset.train@ + dataset.test@).to_multiset() == articles@.to_multiset(),
{
    let mut shuffled = articles;
    shuffle(&mut shuffled, SHUFFLE_SEED);
    proof {
        shuffled@.to_multiset_ensures();
        articles@.to_multiset_ensures();
    }
    let ghost mixed = shuffled@;
    let dataset = split_dataset(shuffled, n_train);
    assert(dataset.train@ + dataset.test@ =~= mixed);
    dataset
}

} // verus!
