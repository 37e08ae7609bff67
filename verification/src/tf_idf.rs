//! How often tokens occur.

use crate::preprocess::{all_headline_tokens, tokenize_article_text, tokens_of_headlines};
use crate::token_map::TokenMap;
use vstd::prelude::*;

verus! {

/// How many documents hold each token, and how many documents there are.
pub struct DocumentFrequencyCounter {
    pub counter: TokenMap,
    pub n_documents: usize,
}

/// A token with its weight, scaled to a whole number.
#[derive(Debug, Hash)]
pub struct TfIdfResult {
    token: String,
    tfidf: u64,
}

impl TfIdfResult {
    /// A token with its scaled weight.
    pub fn new(token: &String, tfidf: u64) -> (r: TfIdfResult)
        ensures
            r.token_view() == token@,
            r.weight() == tfidf,
    {
        TfIdfResult { token: token.clone(), tfidf }
    }

    /// The token, as contracts see it.
    pub closed spec fn token_view(&self) -> Seq<char> {
        self.token@
    }

    /// The scaled weight, as contracts see it.
    pub closed spec fn weight(&self) -> u64 {
        self.tfidf
    }

    /// The token.
    pub fn token(&self) -> (token: &String)
        ensures
            token@ == self.token_view(),
    {
        &self.token
    }

    /// The scaled weight.
    pub fn tfidf(&self) -> (tfidf: u64)
        ensures
            tfidf == self.weight(),
    {
        self.tfidf
    }

    /// Two results are the same where they are of the same token, whatever
    /// their weights.
    pub fn same_token(&self, other: &TfIdfResult) -> (same: bool)
        ensures
            same == (self.token_view() == other.token_view()),
    {
        self.token == other.token
    }
}

/// The count that a map holds for a token: zero where it holds none.
pub open spec fn count_in(counts: Map<Seq<char>, usize>, token: Seq<char>) -> nat {
    if counts.contains_key(token) {
        counts[token] as nat
    } else {
        0
    }
}

/// How often a token occurs in a series of tokens.
pub open spec fn occurrences(tokens: Seq<Seq<char>>, token: Seq<char>) -> nat
    decreases tokens.len(),
{
    if tokens.len() == 0 {
        0
    } else {
        occurrences(tokens.drop_last(), token) + if tokens.last() == token {
            1nat
        } else {
            0nat
        }
    }
}

impl DocumentFrequencyCounter {
    /// A counter with the given counts for the given number of documents.
    pub fn new(doc_freq_map: TokenMap, n_documents: usize) -> (r: DocumentFrequencyCounter)
        ensures
            r.counter@ == doc_freq_map@,
            r.n_documents == n_documents,
    {
        DocumentFrequencyCounter { counter: doc_freq_map, n_documents }
    }

    /// In how many documents a token occurs: zero for a token that was never
    /// counted.
    pub fn get_doc_freq(&self, token: &String) -> (n: usize)
        ensures
            n == count_in(self.counter@, token@),
    {
        match self.counter.get(token) {
            Some(n) => n,
            None => 0,
        }
    }
}

/// How often a token occurs in a series of tokens.
pub fn term_count(token: &String, tokens: &Vec<String>) -> (n: usize)
    ensures
        n == occurrences(tokens.deep_view(), token@),
{
    let mut n: usize = 0;
    let mut i: usize = 0;
    assert(tokens.deep_view().take(0) =~= Seq::empty());
    while i < tokens.len()
        invariant
            i <= tokens.len(),
            n <= i,
            n == occurrences(tokens.deep_view().take(i as int), token@),
        decreases tokens.len() - i,
    {
        let ghost head = tokens.deep_view().take(i as int + 1);
        assert(head.drop_last() =~= tokens.deep_view().take(i as int));
        assert(head.last() == tokens[i as int]@);
        if tokens[i] == *token {
            n += 1;
        }
        i += 1;
    }
    assert(tokens.deep_view().take(i as int) =~= tokens.deep_view());
    n
}

/// Counts one more document for every token that occurs in it, however often
/// it occurs there.
pub fn count_document(counter: TokenMap, tokens: &Vec<String>, limit: usize) -> (r: TokenMap)
    requires
        limit < usize::MAX,
        forall|token: Seq<char>| count_in(counter@, token) <= limit,
    ensures
        forall|token: Seq<char>|
            count_in(r@, token) == #[trigger] count_in(counter@, token) + (if tokens.deep_view().contains(
                token,
            ) {
                1nat
            } else {
                0nat
            }),
{
    let mut r = counter;
    let ghost start = r@;
    let mut i: usize = 0;
    while i < tokens.len()
        invariant
            i <= tokens.len(),
            limit < usize::MAX,
            start == counter@,
            forall|token: Seq<char>| count_in(start, token) <= limit,
            forall|token: Seq<char>|
                count_in(r@, token) == #[trigger] count_in(start, token) + (if tokens.deep_view().take(
                    i as int,
                ).contains(token) {
                    1nat
                } else {
                    0nat
                }),
        decreases tokens.len() - i,
    {
        let ghost seen = tokens.deep_view().take(i as int);
        let ghost now = tokens.deep_view().take(i as int + 1);
        let ghost name = tokens[i as int]@;
        let ghost before = r@;
        assert(now =~= seen.push(name));
        assert forall|token: Seq<char>| now.contains(token) <==> (seen.contains(token) || token
            == name) by {
            if seen.contains(token) {
                let k = seen.index_of(token);
                assert(now[k] == token);
            }
            if token == name {
                assert(now[i as int] == token);
            }
            if now.contains(token) {
                let k = now.index_of(token);
                if k < i {
                    assert(seen[k] == token);
                }
            }
        }
        if !seen_before(tokens, i) {
            assert(count_in(before, name) == count_in(start, name));
            let n = match r.get(&tokens[i]) {
                Some(n) => n,
                None => 0,
            };
            r = r.insert(tokens[i].clone(), n + 1);
            assert forall|token: Seq<char>|
                count_in(r@, token) == #[trigger] count_in(start, token) + (if now.contains(token) {
                    1nat
                } else {
                    0nat
                }) by {
                if token != name {
                    assert(count_in(r@, token) == count_in(before, token));
                }
            }
        }
        i += 1;
    }
    assert(tokens.deep_view().take(i as int) =~= tokens.deep_view());
    r
}

/// Whether the token at `i` occurs before `i` as well.
fn seen_before(tokens: &Vec<String>, i: usize) -> (seen: bool)
    requires
        i < tokens.len(),
    ensures
        seen == tokens.deep_view().take(i as int).contains(tokens[i as int]@),
{
    let ghost head = tokens.deep_view().take(i as int);
    let mut k: usize = 0;
    while k < i
        invariant
            k <= i,
            i < tokens.len(),
            head == tokens.deep_view().take(i as int),
            forall|j: int| 0 <= j < k ==> head[j] != tokens[i as int]@,
        decreases i - k,
    {
        assert(head[k as int] == tokens[k as int]@);
        if tokens[k] == tokens[i] {
            return true;
        }
        k += 1;
    }
    false
}

/// In how many of the documents each token occurs. A document that could not
/// be read, or is empty, counts as a document and holds no token.
pub fn get_token_article_frequencies(
    tokenizer: &nlprule::Tokenizer,
    bodies: &Vec<Option<String>>,
) -> (r: DocumentFrequencyCounter)
    ensures
        r.n_documents == bodies.len(),
        forall|token: Seq<char>| count_in(r.counter@, token) <= bodies.len(),
{
    let mut counter = TokenMap::new();
    let mut i: usize = 0;
    while i < bodies.len()
        invariant
            i <= bodies.len(),
            forall|token: Seq<char>| count_in(counter@, token) <= i,
        decreases bodies.len() - i,
    {
        match &bodies[i] {
            Some(body) => match tokenize_article_text(tokenizer, body.as_str()) {
                Some(tokens) => {
                    let ghost before = counter@;
                    counter = count_document(counter, &tokens, i);
                    assert forall|token: Seq<char>| count_in(counter@, token) <= i + 1 by {
                        assert(count_in(before, token) <= i);
                    }
                },
                None => {},
            },
            None => {},
        }
        i += 1;
    }
    DocumentFrequencyCounter::new(counter, bodies.len())
}

/// A token occurs in a series at most as often as the series is long.
pub proof fn lemma_occurrences_are_bounded(tokens: Seq<Seq<char>>, token: Seq<char>)
    ensures
        occurrences(tokens, token) <= tokens.len(),
    decreases tokens.len(),
{
    if tokens.len() > 0 {
        lemma_occurrences_are_bounded(tokens.drop_last(), token);
    }
}

/// Counts every occurrence of every token of a series.
pub fn count_tokens(counter: TokenMap, tokens: &Vec<String>) -> (r: TokenMap)
    requires
        forall|token: Seq<char>| count_in(counter@, token) + tokens.len() <= usize::MAX,
    ensures
        forall|token: Seq<char>|
            count_in(r@, token) == #[trigger] count_in(counter@, token) + occurrences(
                tokens.deep_view(),
                token,
            ),
{
    let mut r = counter;
    let ghost start = r@;
    let mut i: usize = 0;
    assert(tokens.deep_view().take(0) =~= Seq::empty());
    while i < tokens.len()
        invariant
            i <= tokens.len(),
            start == counter@,
            forall|token: Seq<char>| count_in(start, token) + tokens.len() <= usize::MAX,
            forall|token: Seq<char>|
                count_in(r@, token) == #[trigger] count_in(start, token) + occurrences(
                    tokens.deep_view().take(i as int),
                    token,
                ),
        decreases tokens.len() - i,
    {
        let ghost seen = tokens.deep_view().take(i as int);
        let ghost now = tokens.deep_view().take(i as int + 1);
        let ghost name = tokens[i as int]@;
        let ghost before = r@;
        assert(now.drop_last() =~= seen);
        assert(now.last() == name);
        proof {
            lemma_occurrences_are_bounded(seen, name);
        }
        assert(count_in(before, name) == count_in(start, name) + occurrences(seen, name));
        let n = match r.get(&tokens[i]) {
            Some(n) => n,
            None => 0,
        };
        r = r.insert(tokens[i].clone(), n + 1);
        assert forall|token: Seq<char>|
            count_in(r@, token) == #[trigger] count_in(start, token) + occurrences(now, token) by {
            if token != name {
                assert(count_in(r@, token) == count_in(before, token));
            }
        }
        i += 1;
    }
    assert(tokens.deep_view().take(i as int) =~= tokens.deep_view());
    r
}

/// A map counts the tokens of a list: for every token it holds the number of
/// its occurrences in the list.
pub open spec fn counts(map: Map<Seq<char>, usize>, tokens: Seq<Seq<char>>) -> bool {
    forall|token: Seq<char>| #[trigger] count_in(map, token) == occurrences(tokens, token)
}

/// How often each token occurs in the headlines that the stems stand for,
/// every occurrence counted, with the number of stems as the number of
/// documents.
pub fn get_token_headline_frequencies(tokenizer: &nlprule::Tokenizer, stems: &Vec<String>) -> (r:
    DocumentFrequencyCounter)
    ensures
        r.n_documents == stems.len(),
        exists|lists: Seq<Seq<Seq<char>>>| #[trigger]
            tokens_of_headlines(lists, stems.deep_view()) && counts(r.counter@, lists.flatten()),
{
    let all = all_headline_tokens(tokenizer, stems);
    let ghost lists = choose|lists: Seq<Seq<Seq<char>>>| #[trigger]
        tokens_of_headlines(lists, stems.deep_view()) && all.deep_view() == lists.flatten();
    let empty = TokenMap::new();
    let ghost none = empty@;
    let counter = count_tokens(empty, &all);
    assert forall|token: Seq<char>| #[trigger]
        count_in(counter@, token) == occurrences(lists.flatten(), token) by {
        assert(count_in(none, token) == 0);
    }
    DocumentFrequencyCounter::new(counter, stems.len())
}

/// The result at `i` is the first of its token in the document.
pub open spec fn first_of_its_token(doc: Seq<TfIdfResult>, i: int) -> bool {
    forall|j: int| 0 <= j < i ==> (#[trigger] doc[j]).token_view() != doc[i].token_view()
}

/// How many tokens of a document have the weight `w`. A token that the
/// document holds more than once counts once, with the weight of its first
/// result.
pub open spec fn weight_count_in(doc: Seq<TfIdfResult>, w: u64) -> nat
    decreases doc.len(),
{
    if doc.len() == 0 {
        0
    } else {
        weight_count_in(doc.drop_last(), w) + if doc.last().weight() == w && first_of_its_token(
            doc,
            doc.len() - 1,
        ) {
            1nat
        } else {
            0nat
        }
    }
}

/// How many tokens have the weight `w`, over all documents.
pub open spec fn weight_count(docs: Seq<Vec<TfIdfResult>>, w: u64) -> nat
    decreases docs.len(),
{
    if docs.len() == 0 {
        0
    } else {
        weight_count(docs.drop_last(), w) + weight_count_in(docs.last()@, w)
    }
}

/// How many results the documents hold.
pub open spec fn total_results(docs: Seq<Vec<TfIdfResult>>) -> nat
    decreases docs.len(),
{
    if docs.len() == 0 {
        0
    } else {
        total_results(docs.drop_last()) + docs.last()@.len()
    }
}

/// A list of weights with their counts stands for a count of weights: the
/// weights rise strictly, each has its count, and no weight that was counted
/// is missing.
pub open spec fn stands_for(dist: Seq<(u64, usize)>, count: spec_fn(u64) -> nat) -> bool {
    &&& forall|i: int, j: int| 0 <= i < j < dist.len() ==> (#[trigger] dist[i]).0 < (
    #[trigger] dist[j]).0
    &&& forall|i: int| 0 <= i < dist.len() ==> (#[trigger] dist[i]).1 > 0 && dist[i].1 == count(
        dist[i].0,
    )
    &&& forall|w: u64| #[trigger] count(w) > 0 ==> exists|i: int| 0 <= i < dist.len() && (
    #[trigger] dist[i]).0 == w
}

proof fn lemma_weight_count_in_is_bounded(doc: Seq<TfIdfResult>, w: u64)
    ensures
        weight_count_in(doc, w) <= doc.len(),
    decreases doc.len(),
{
    if doc.len() > 0 {
        lemma_weight_count_in_is_bounded(doc.drop_last(), w);
    }
}

proof fn lemma_weight_count_is_bounded(docs: Seq<Vec<TfIdfResult>>, w: u64)
    ensures
        weight_count(docs, w) <= total_results(docs),
    decreases docs.len(),
{
    if docs.len() > 0 {
        lemma_weight_count_is_bounded(docs.drop_last(), w);
        lemma_weight_count_in_is_bounded(docs.last()@, w);
    }
}

proof fn lemma_total_results_grow(docs: Seq<Vec<TfIdfResult>>, d: int)
    requires
        0 <= d <= docs.len(),
    ensures
        total_results(docs.take(d)) <= total_results(docs),
    decreases docs.len() - d,
{
    if d < docs.len() {
        lemma_total_results_grow(docs, d + 1);
        assert(docs.take(d + 1).drop_last() =~= docs.take(d));
    } else {
        assert(docs.take(d) =~= docs);
    }
}

/// A list that stands for one count stands for every count that agrees with
/// it on all weights.
proof fn lemma_stands_for_equal_counts(
    dist: Seq<(u64, usize)>,
    f: spec_fn(u64) -> nat,
    g: spec_fn(u64) -> nat,
)
    requires
        stands_for(dist, f),
        forall|w: u64| #[trigger] f(w) == g(w),
    ensures
        stands_for(dist, g),
{
    assert forall|w: u64| #[trigger] g(w) > 0 implies exists|i: int|
        0 <= i < dist.len() && (#[trigger] dist[i]).0 == w by {
        assert(f(w) > 0);
    }
    assert forall|i: int| 0 <= i < dist.len() implies (#[trigger] dist[i]).1 > 0 && dist[i].1 == g(
        dist[i].0,
    ) by {
        assert(f(dist[i].0) == g(dist[i].0));
    }
}

/// Counts one more token of the weight `w`.
fn add_weight(dist: &mut Vec<(u64, usize)>, w: u64, Ghost(count): Ghost<spec_fn(u64) -> nat>)
    requires
        stands_for(old(dist)@, count),
        count(w) < usize::MAX,
    ensures
        stands_for(
            final(dist)@,
            |x: u64|
                if x == w {
                    count(x) + 1
                } else {
                    count(x)
                },
        ),
{
    let ghost before = dist@;
    let ghost next = |x: u64|
        if x == w {
            count(x) + 1
        } else {
            count(x)
        };
    let mut k: usize = 0;
    while k < dist.len() && dist[k].0 < w
        invariant
            k <= dist.len(),
            dist@ == before,
            forall|j: int| 0 <= j < k ==> (#[trigger] before[j]).0 < w,
        decreases dist.len() - k,
    {
        k += 1;
    }
    if k < dist.len() && dist[k].0 == w {
        let n = dist[k].1;
        dist.set(k, (w, n + 1));
        assert forall|i: int| 0 <= i < dist@.len() implies (#[trigger] dist@[i]).1 > 0 && dist@[i].1
            == next(dist@[i].0) by {
            if i != k {
                assert(dist@[i] == before[i]);
                assert(before[i].0 != before[k as int].0);
            }
        }
        assert forall|x: u64| #[trigger] next(x) > 0 implies exists|i: int|
            0 <= i < dist@.len() && (#[trigger] dist@[i]).0 == x by {
            if x == w {
                assert(dist@[k as int].0 == x);
            } else {
                assert(count(x) > 0);
                let i = choose|i: int| 0 <= i < before.len() && (#[trigger] before[i]).0 == x;
                assert(dist@[i].0 == x);
            }
        }
        assert forall|i: int, j: int| 0 <= i < j < dist@.len() implies (#[trigger] dist@[i]).0 < (
        #[trigger] dist@[j]).0 by {
            assert(dist@[i].0 == before[i].0);
            assert(dist@[j].0 == before[j].0);
        }
    } else {
        assert(count(w) == 0) by {
            if count(w) > 0 {
                let i = choose|i: int| 0 <= i < before.len() && (#[trigger] before[i]).0 == w;
                if i < k {
                } else if i > k {
                    assert(before[k as int].0 < before[i].0);
                }
            }
        }
        dist.insert(k, (w, 1));
        assert forall|i: int| 0 <= i < dist@.len() implies (#[trigger] dist@[i]).1 > 0 && dist@[i].1
            == next(dist@[i].0) by {
            if i < k {
                assert(dist@[i] == before[i]);
            } else if i > k {
                assert(dist@[i] == before[i - 1]);
                assert(before[i - 1].0 != w) by {
                    if i - 1 > k {
                        assert(before[k as int].0 < before[i - 1].0);
                    }
                }
            }
        }
        assert forall|x: u64| #[trigger] next(x) > 0 implies exists|i: int|
            0 <= i < dist@.len() && (#[trigger] dist@[i]).0 == x by {
            if x == w {
                assert(dist@[k as int].0 == x);
            } else {
                assert(count(x) > 0);
                let i = choose|i: int| 0 <= i < before.len() && (#[trigger] before[i]).0 == x;
                if i < k {
                    assert(dist@[i].0 == x);
                } else {
                    assert(dist@[i + 1].0 == x);
                }
            }
        }
        assert forall|i: int, j: int| 0 <= i < j < dist@.len() implies (#[trigger] dist@[i]).0 < (
        #[trigger] dist@[j]).0 by {
            if j < k {
                assert(dist@[i] == before[i] && dist@[j] == before[j]);
            } else if j == k {
                assert(dist@[i] == before[i]);
            } else if i < k {
                assert(dist@[i] == before[i] && dist@[j] == before[j - 1]);
                if j - 1 == i {
                }
            } else if i == k {
                assert(dist@[j] == before[j - 1]);
                if j - 1 > k {
                    assert(before[k as int].0 < before[j - 1].0);
                }
            } else {
                assert(dist@[i] == before[i - 1] && dist@[j] == before[j - 1]);
            }
        }
    }
}

/// Whether the result at `i` is the first of its token in the document.
fn is_first_of_its_token(doc: &Vec<TfIdfResult>, i: usize) -> (first: bool)
    requires
        i < doc.len(),
    ensures
        first == first_of_its_token(doc@, i as int),
{
    let mut k: usize = 0;
    while k < i
        invariant
            k <= i,
            i < doc.len(),
            forall|j: int| 0 <= j < k ==> (#[trigger] doc@[j]).token_view() != doc@[i as int].token_view(),
        decreases i - k,
    {
        if doc[k].same_token(&doc[i]) {
            return false;
        }
        k += 1;
    }
    true
}

/// How many results the documents hold, where that number fits the machine's
/// integers.
pub fn count_results(docs: &Vec<Vec<TfIdfResult>>) -> (total: Option<usize>)
    ensures
        total is Some <==> total_results(docs@) <= usize::MAX,
        total matches Some(n) ==> n == total_results(docs@),
{
    let mut total: usize = 0;
    let mut d: usize = 0;
    assert(docs@.take(0) =~= Seq::empty());
    while d < docs.len()
        invariant
            d <= docs.len(),
            total == total_results(docs@.take(d as int)),
        decreases docs.len() - d,
    {
        let ghost upto = docs@.take(d as int + 1);
        assert(upto.drop_last() =~= docs@.take(d as int));
        assert(upto.last() == docs@[d as int]);
        match total.checked_add(docs[d].len()) {
            Some(sum) => {
                total = sum;
            },
            None => {
                proof {
                    lemma_total_results_grow(docs@, d as int + 1);
                }
                return None;
            },
        }
        d += 1;
    }
    assert(docs@.take(d as int) =~= docs@);
    Some(total)
}

/// How the weights are distributed over the documents: for each weight that
/// a token has in some document, in how many places it was found, a token
/// counting once for each document that holds it. The weights rise through
/// the list.
pub fn get_tfidf_distribution(docs: &Vec<Vec<TfIdfResult>>) -> (dist: Vec<(u64, usize)>)
    requires
        total_results(docs@) < usize::MAX,
    ensures
        stands_for(dist@, |w: u64| weight_count(docs@, w)),
{
    let mut dist: Vec<(u64, usize)> = Vec::new();
    let mut d: usize = 0;
    assert(docs@.take(0) =~= Seq::empty());
    while d < docs.len()
        invariant
            d <= docs.len(),
            total_results(docs@) < usize::MAX,
            stands_for(dist@, |w: u64| weight_count(docs@.take(d as int), w)),
        decreases docs.len() - d,
    {
        let doc = &docs[d];
        let ghost done = docs@.take(d as int);
        let ghost upto = docs@.take(d as int + 1);
        assert(upto.drop_last() =~= done);
        assert(upto.last() == *doc);
        let mut i: usize = 0;
        proof {
            assert(doc@.take(0) =~= Seq::empty());
            lemma_stands_for_equal_counts(
                dist@,
                |w: u64| weight_count(docs@.take(d as int), w),
                |w: u64| weight_count(done, w) + weight_count_in(doc@.take(0), w),
            );
        }
        while i < doc.len()
            invariant
                i <= doc.len(),
                d < docs.len(),
                *doc == docs@[d as int],
                done == docs@.take(d as int),
                upto == docs@.take(d as int + 1),
                upto.drop_last() == done,
                upto.last() == *doc,
                total_results(docs@) < usize::MAX,
                stands_for(
                    dist@,
                    |w: u64| weight_count(done, w) + weight_count_in(doc@.take(i as int), w),
                ),
            decreases doc.len() - i,
        {
            let ghost seen = doc@.take(i as int);
            let ghost head = doc@.take(i as int + 1);
            let ghost count = |x: u64| weight_count(done, x) + weight_count_in(seen, x);
            let ghost target = |x: u64| weight_count(done, x) + weight_count_in(head, x);
            assert(head.drop_last() =~= seen);
            assert(head.last() == doc@[i as int]);
            assert(first_of_its_token(head, i as int) == first_of_its_token(doc@, i as int)) by {
                if first_of_its_token(doc@, i as int) {
                    assert forall|j: int| 0 <= j < i implies (#[trigger] head[j]).token_view()
                        != head[i as int].token_view() by {
                        assert(head[j] == doc@[j]);
                    }
                }
                if first_of_its_token(head, i as int) {
                    assert forall|j: int| 0 <= j < i implies (#[trigger] doc@[j]).token_view()
                        != doc@[i as int].token_view() by {
                        assert(head[j] == doc@[j]);
                    }
                }
            }
            if is_first_of_its_token(doc, i) {
                let w = doc[i].tfidf();
                proof {
                    lemma_weight_count_is_bounded(done, w);
                    lemma_weight_count_in_is_bounded(seen, w);
                    lemma_total_results_grow(docs@, d as int + 1);
                    assert(seen.len() < doc@.len());
                }
                add_weight(&mut dist, w, Ghost(count));
                proof {
                    lemma_stands_for_equal_counts(
                        dist@,
                        |x: u64|
                            if x == w {
                                count(x) + 1
                            } else {
                                count(x)
                            },
                        target,
                    );
                }
            } else {
                proof {
                    lemma_stands_for_equal_counts(dist@, count, target);
                }
            }
            i += 1;
        }
        proof {
            assert(doc@.take(i as int) =~= doc@);
            lemma_stands_for_equal_counts(
                dist@,
                |w: u64| weight_count(done, w) + weight_count_in(doc@.take(i as int), w),
                |w: u64| weight_count(upto, w),
            );
        }
        d += 1;
    }
    assert(docs@.take(d as int) =~= docs@);
    dist
}

} // verus!
