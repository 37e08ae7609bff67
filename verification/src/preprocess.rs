//! Tokens and their numbers.

use crate::text::{has_substring, lowercased, replace, replaced};
use crate::token_map::TokenMap;
use std::collections::HashMap;
use vstd::pervasive::unreached;
use vstd::prelude::*;
use vstd::std_specs::hash::group_hash_axioms;

verus! {

broadcast use group_hash_axioms;

/// The tokenizer of `nlprule`, as it was loaded. The library hands it on and
/// reads nothing of it.
#[verifier::external_type_specification]
#[verifier::external_body]
pub struct ExTokenizer(nlprule::Tokenizer);

/// What stands for a token that has no number.
pub const UNKNOWN_TOKEN: &'static str = "UNK";

/// Gives each known token its number.
pub struct Indexer {
    index_map: TokenMap,
}

impl View for Indexer {
    type V = Map<Seq<char>, usize>;

    closed spec fn view(&self) -> Map<Seq<char>, usize> {
        self.index_map@
    }
}

impl Indexer {
    #[verifier::type_invariant]
    closed spec fn holds(self) -> bool {
        self.index_map.tokens().len() < usize::MAX && self.index_map.tokens_are_keys()
    }

    /// The number that stands for every unknown token: one more than the
    /// number of known tokens.
    pub open spec fn unknown_index(&self) -> int {
        self@.dom().len() as int + 1
    }

    /// The number of a token: its own where it is known, the number for
    /// unknown tokens otherwise.
    pub open spec fn index_of(&self, token: Seq<char>) -> int {
        if self@.contains_key(token) {
            self@[token] as int
        } else {
            self.unknown_index()
        }
    }

    /// An indexer with the given numbers.
    pub fn new(index_map: TokenMap) -> (indexer: Indexer)
        requires
            index_map.tokens().len() < usize::MAX,
        ensures
            indexer@ == index_map@,
    {
        let _ = index_map.len();
        Indexer { index_map }
    }

    /// The number of a token.
    pub fn get_index(&self, token: &String) -> (index: usize)
        ensures
            index == self.index_of(token@),
    {
        proof {
            use_type_invariant(self);
        }
        match self.index_map.get(token) {
            Some(index) => index,
            None => self.index_map.len() + 1,
        }
    }

    /// The numbers of a series of tokens, in order.
    pub fn encode_sequence(&self, tokens: &Vec<String>) -> (indices: Vec<usize>)
        ensures
            indices.len() == tokens.len(),
            forall|i: int|
                0 <= i < tokens.len() ==> #[trigger] indices[i] == self.index_of(tokens[i]@),
    {
        let mut indices: Vec<usize> = Vec::new();
        let mut i: usize = 0;
        while i < tokens.len()
            invariant
                i <= tokens.len(),
                indices.len() == i,
                forall|j: int| 0 <= j < i ==> #[trigger] indices[j] == self.index_of(tokens[j]@),
            decreases tokens.len() - i,
        {
            indices.push(self.get_index(&tokens[i]));
            i += 1;
        }
        indices
    }
}

/// Gives each number its token.
pub struct Deindexer {
    token_map: HashMap<usize, String>,
}

impl View for Deindexer {
    type V = Map<usize, String>;

    closed spec fn view(&self) -> Map<usize, String> {
        self.token_map@
    }
}

impl Deindexer {
    /// A deindexer with the given tokens.
    pub fn new(token_map: HashMap<usize, String>) -> (deindexer: Deindexer)
        ensures
            deindexer@ == token_map@,
    {
        Deindexer { token_map }
    }

    /// The token of a number. A number above the count of tokens stands for an
    /// unknown token; any other number must have a token.
    pub fn get_token(&self, index: usize) -> (token: String)
        requires
            index <= self@.dom().len() ==> self@.contains_key(index),
        ensures
            token@ == (if index > self@.dom().len() {
                UNKNOWN_TOKEN@
            } else {
                self@[index]@
            }),
    {
        if index > self.token_map.len() {
            UNKNOWN_TOKEN.to_owned()
        } else {
            match self.token_map.get(&index) {
                Some(token) => token.clone(),
                None => unreached(),
            }
        }
    }

    /// The tokens of a series of numbers, in order.
    pub fn decode_sequence(&self, idx: &Vec<usize>) -> (tokens: Vec<String>)
        requires
            forall|i: int|
                0 <= i < idx.len() && idx[i] <= self@.dom().len() ==> self@.contains_key(
                    #[trigger] idx[i],
                ),
        ensures
            tokens.len() == idx.len(),
            forall|i: int|
                0 <= i < idx.len() ==> (#[trigger] tokens[i])@ == (if idx[i] > self@.dom().len() {
                    UNKNOWN_TOKEN@
                } else {
                    self@[idx[i]]@
                }),
    {
        let mut tokens: Vec<String> = Vec::new();
        let mut i: usize = 0;
        while i < idx.len()
            invariant
                i <= idx.len(),
                tokens.len() == i,
                forall|j: int|
                    0 <= j < idx.len() && idx[j] <= self@.dom().len() ==> self@.contains_key(
                        #[trigger] idx[j],
                    ),
                forall|j: int|
                    0 <= j < i ==> (#[trigger] tokens[j])@ == (if idx[j] > self@.dom().len() {
                        UNKNOWN_TOKEN@
                    } else {
                        self@[idx[j]]@
                    }),
            decreases idx.len() - i,
        {
            tokens.push(self.get_token(idx[i]));
            i += 1;
        }
        tokens
    }
}

/// The deindexer that undoes an indexer: it knows exactly the numbers that
/// the indexer gives out, and the token of each is one to which the indexer
/// gives that number.
pub fn create_word_deindexer(indexer: &Indexer) -> (deindexer: Deindexer)
    ensures
        forall|index: usize|
            deindexer@.contains_key(index) <==> exists|token: Seq<char>|
                indexer@.contains_key(token) && #[trigger] indexer@[token] == index,
        forall|index: usize| #[trigger]
            deindexer@.contains_key(index) ==> indexer@.contains_key(deindexer@[index]@)
                && indexer@[deindexer@[index]@] == index,
{
    proof {
        use_type_invariant(indexer);
    }
    let mut token_map: HashMap<usize, String> = HashMap::new();
    let n = indexer.index_map.len();
    let ghost tokens = indexer.index_map.tokens();
    let mut i: usize = 0;
    while i < n
        invariant
            i <= n,
            n == tokens.len(),
            tokens == indexer.index_map.tokens(),
            indexer.index_map.tokens_are_keys(),
            indexer@ == indexer.index_map@,
            forall|index: usize|
                token_map@.contains_key(index) <==> exists|j: int|
                    0 <= j < i && #[trigger] indexer@[tokens[j]] == index,
            forall|index: usize| #[trigger]
                token_map@.contains_key(index) ==> indexer@.contains_key(token_map@[index]@)
                    && indexer@[token_map@[index]@] == index,
        decreases n - i,
    {
        let token = indexer.index_map.token_at(i);
        let index = indexer.index_map.value_at(i);
        let ghost before = token_map@;
        token_map.insert(index, token.clone());
        assert forall|other: usize| token_map@.contains_key(other) <==> exists|j: int|
            0 <= j < i + 1 && #[trigger] indexer@[tokens[j]] == other by {
            if token_map@.contains_key(other) {
                if other == index {
                    assert(indexer@[tokens[i as int]] == other);
                } else {
                    assert(before.contains_key(other));
                    let j = choose|j: int| 0 <= j < i && #[trigger] indexer@[tokens[j]] == other;
                    assert(0 <= j < i + 1 && indexer@[tokens[j]] == other);
                }
            }
            if exists|j: int| 0 <= j < i + 1 && #[trigger] indexer@[tokens[j]] == other {
                let j = choose|j: int| 0 <= j < i + 1 && #[trigger] indexer@[tokens[j]] == other;
                if j < i {
                    assert(before.contains_key(other));
                }
            }
        }
        i += 1;
    }
    let deindexer = Deindexer::new(token_map);
    assert forall|index: usize|
        deindexer@.contains_key(index) <==> exists|token: Seq<char>|
            indexer@.contains_key(token) && #[trigger] indexer@[token] == index by {
        if deindexer@.contains_key(index) {
            let j = choose|j: int| 0 <= j < n && #[trigger] indexer@[tokens[j]] == index;
            assert(tokens.contains(tokens[j]));
            assert(indexer@.contains_key(tokens[j]) && indexer@[tokens[j]] == index);
        }
        if exists|token: Seq<char>|
            indexer@.contains_key(token) && #[trigger] indexer@[token] == index {
            let token = choose|token: Seq<char>|
                indexer@.contains_key(token) && #[trigger] indexer@[token] == index;
            assert(tokens.contains(token));
            let j = tokens.index_of(token);
            assert(0 <= j < n && indexer@[tokens[j]] == index);
        }
    }
    deindexer
}

/// The text of a stored article in lower case, unless the article is empty.
pub open spec fn article_text_of(body: Seq<char>) -> Option<Seq<char>> {
    if body.len() > 0 {
        Some(lowercased(body))
    } else {
        None
    }
}

/// Puts the text of a stored article in lower case. An empty article has no
/// text.
pub fn read_article_text(body: &str) -> (text: Option<String>)
    ensures
        text.is_some() == article_text_of(body@).is_some(),
        text matches Some(t) ==> article_text_of(body@) == Some(t@),
{
    if body.unicode_len() > 0 {
        Some(body.to_lowercase())
    } else {
        None
    }
}

/// The headline that a file's stem stands for: the stem with a space for
/// every underscore.
pub open spec fn headline_of(stem: Seq<char>) -> Seq<char> {
    replaced(stem, "_"@, " "@)
}

/// The headline that a file's stem stands for.
pub fn headline_text(stem: &str) -> (headline: String)
    ensures
        headline@ == headline_of(stem@),
{
    replace(stem, "_", " ")
}

/// Every token is a piece of the text: it is not empty, and it stands in the
/// text as it is.
pub open spec fn pieces_of(tokens: Seq<Seq<char>>, text: Seq<char>) -> bool {
    forall|i: int|
        0 <= i < tokens.len() ==> (#[trigger] tokens[i]).len() > 0 && has_substring(text, tokens[i])
}

/// One list of tokens for each stem, each made of pieces of the headline that
/// its stem stands for.
pub open spec fn tokens_of_headlines(lists: Seq<Seq<Seq<char>>>, stems: Seq<Seq<char>>) -> bool {
    &&& lists.len() == stems.len()
    &&& forall|i: int|
        0 <= i < lists.len() ==> pieces_of(#[trigger] lists[i], headline_of(stems[i]))
}

/// Runs `nlprule::Tokenizer::pipe` on the text and collects the text of each
/// token's word (`Token::word`, `Word::as_str`), sentence after sentence.
/// Which tokens come out depends on the tokenizer. Whatever the tokenizer,
/// `Tokenizer::tokenize` makes the text of every word by slicing the sentence,
/// which is a slice of the text, trimming the slice and dropping it where
/// nothing is left; the steps after it change the tags of a word and leave
/// its text alone.
#[verifier::external_body]
pub(crate) fn get_tokens(tokenizer: &nlprule::Tokenizer, text: &String) -> (tokens: Vec<String>)
    ensures
        pieces_of(tokens.deep_view(), text@),
{
    let tokens = tokenizer.pipe(text).flat_map(|s| s.tokens().to_vec());
    let tokens = tokens.map(|t| t.word().as_str().to_string());
    tokens.collect()
}

/// The tokens of a stored article, unless the article is empty.
pub fn tokenize_article_text(tokenizer: &nlprule::Tokenizer, body: &str) -> (tokens: Option<
    Vec<String>,
>)
    ensures
        tokens is Some <==> body@.len() > 0,
{
    match read_article_text(body) {
        Some(text) => Some(get_tokens(tokenizer, &text)),
        None => None,
    }
}

/// The tokens of the headline that a file's stem stands for. The tokenizer
/// is handed the headline, so every token is a piece of the headline.
pub fn tokenize_headline_text(tokenizer: &nlprule::Tokenizer, stem: &str) -> (tokens: Vec<String>)
    ensures
        pieces_of(tokens.deep_view(), headline_of(stem@)),
{
    let headline = headline_text(stem);
    get_tokens(tokenizer, &headline)
}

/// The tokens of the headlines that the stems stand for, those of the first
/// stem first.
pub fn all_headline_tokens(tokenizer: &nlprule::Tokenizer, stems: &Vec<String>) -> (all: Vec<
    String,
>)
    ensures
        exists|lists: Seq<Seq<Seq<char>>>| #[trigger]
            tokens_of_headlines(lists, stems.deep_view()) && all.deep_view() == lists.flatten(),
{
    let mut all: Vec<String> = Vec::new();
    let ghost mut lists: Seq<Seq<Seq<char>>> = Seq::empty();
    let mut i: usize = 0;
    assert(all.deep_view() =~= lists.flatten());
    while i < stems.len()
        invariant
            i <= stems.len(),
            lists.len() == i,
            forall|j: int|
                0 <= j < i ==> pieces_of(#[trigger] lists[j], headline_of(stems.deep_view()[j])),
            all.deep_view() == lists.flatten(),
        decreases stems.len() - i,
    {
        let mut tokens = tokenize_headline_text(tokenizer, stems[i].as_str());
        let ghost piece = tokens.deep_view();
        let ghost before = all.deep_view();
        assert(stems.deep_view()[i as int] == stems[i as int]@);
        all.append(&mut tokens);
        proof {
            assert(all.deep_view() =~= before + piece);
            lists.lemma_flatten_push(piece);
            lists = lists.push(piece);
        }
        i += 1;
    }
    assert(tokens_of_headlines(lists, stems.deep_view()));
    all
}

/// A map numbers the tokens of a list: its keys are the tokens of the list,
/// every number is below the count of keys, and no two keys have the same
/// number.
pub open spec fn numbers(map: Map<Seq<char>, usize>, tokens: Seq<Seq<char>>) -> bool {
    &&& forall|token: Seq<char>| map.contains_key(token) <==> tokens.contains(token)
    &&& forall|token: Seq<char>| map.contains_key(token) ==> #[trigger] map[token] < map.dom().len()
    &&& forall|a: Seq<char>, b: Seq<char>|
        map.contains_key(a) && map.contains_key(b) && a != b ==> map[a] != map[b]
}

/// Numbers the distinct tokens of a list from zero on. Every token of the
/// list gets a number below the count of distinct tokens, and no two tokens
/// get the same. A list without tokens cannot be numbered.
pub fn index_tokens(tokens: &Vec<String>) -> (r: Option<Indexer>)
    requires
        tokens.len() < usize::MAX,
    ensures
        r is Some <==> tokens.len() > 0,
        r matches Some(indexer) ==> numbers(indexer@, tokens.deep_view()),
{
    let mut map = TokenMap::new();
    let mut i: usize = 0;
    while i < tokens.len()
        invariant
            i <= tokens.len(),
            map.tokens().len() <= i,
            map.tokens().no_duplicates(),
            forall|token: Seq<char>|
                map.tokens().contains(token) <==> tokens.deep_view().take(i as int).contains(token),
            forall|token: Seq<char>| map.tokens().contains(token) <==> map@.contains_key(token),
            forall|j: int| 0 <= j < map.tokens().len() ==> map@[#[trigger] map.tokens()[j]] == j,
        decreases tokens.len() - i,
    {
        let ghost before = map.tokens();
        let ghost seen = tokens.deep_view().take(i as int);
        let ghost now = tokens.deep_view().take(i as int + 1);
        let ghost name = tokens[i as int]@;
        assert(now =~= seen.push(name));
        assert forall|token: Seq<char>| now.contains(token) <==> (seen.contains(token) || token
            == name) by {
            if seen.contains(token) {
                let k = seen.index_of(token);
                assert(now[k] == token);
            }
            if token == name {
                assert(now[i as int] == token);
            }
            if now.contains(token) {
                let k = now.index_of(token);
                if k < i {
                    assert(seen[k] == token);
                }
            }
        }
        if map.get(&tokens[i]).is_none() {
            let n = map.len();
            let ghost old_map = map@;
            map = map.insert(tokens[i].clone(), n);
            let _ = map.len();
            assert(map.tokens() == before.push(name));
            assert forall|token: Seq<char>| map.tokens().contains(token) <==> (before.contains(
                token,
            ) || token == name) by {
                if before.contains(token) {
                    let k = before.index_of(token);
                    assert(map.tokens()[k] == token);
                }
                if token == name {
                    assert(map.tokens()[before.len() as int] == token);
                }
                if map.tokens().contains(token) {
                    let k = map.tokens().index_of(token);
                    if k < before.len() {
                        assert(before[k] == token);
                    }
                }
            }
            assert forall|j: int| 0 <= j < map.tokens().len() implies map@[#[trigger] map.tokens()[j]]
                == j by {
                if j < before.len() {
                    assert(before.contains(before[j]));
                    assert(map.tokens()[j] == before[j]);
                    assert(before[j] != name);
                    assert(old_map[before[j]] == j);
                }
            }
        } else {
            assert(map.tokens().contains(name));
            assert(seen.contains(name));
        }
        assert forall|token: Seq<char>| map.tokens().contains(token) <==> now.contains(token) by {
            if map.tokens().contains(token) {
                assert(before.contains(token) || token == name);
                if before.contains(token) {
                    assert(seen.contains(token));
                }
                assert(seen.contains(token) || token == name);
            }
            if now.contains(token) {
                assert(seen.contains(token) || token == name);
                if seen.contains(token) {
                    assert(before.contains(token));
                }
                assert(map.tokens().contains(name));
            }
        }
        i += 1;
    }
    assert(tokens.deep_view().take(i as int) =~= tokens.deep_view());
    if map.len() == 0 {
        if tokens.len() > 0 {
            assert(tokens.deep_view().contains(tokens.deep_view()[0]));
            assert(map.tokens().contains(tokens.deep_view()[0]));
        }
        None
    } else {
        let ghost order = map.tokens();
        let ghost numbers = map@;
        assert(tokens.len() > 0) by {
            assert(order.contains(order[0]));
            assert(tokens.deep_view().contains(order[0]));
        }
        let indexer = Indexer::new(map);
        assert(indexer@ == numbers);
        assert forall|token: Seq<char>|
            indexer@.contains_key(token) <==> tokens.deep_view().contains(token) by {
            assert(order.contains(token) <==> numbers.contains_key(token));
        }
        assert forall|a: Seq<char>, b: Seq<char>|
            indexer@.contains_key(a) && indexer@.contains_key(b) && a != b implies indexer@[a]
            != indexer@[b] by {
            assert(order.contains(a) && order.contains(b));
            let ka = order.index_of(a);
            let kb = order.index_of(b);
            assert(order[ka] == a && order[kb] == b);
            assert(numbers[order[ka]] == ka);
            assert(numbers[order[kb]] == kb);
        }
        assert forall|token: Seq<char>| indexer@.contains_key(token) implies #[trigger] indexer@[token]
            < indexer@.dom().len() by {
            assert(order.contains(token));
            let k = order.index_of(token);
            assert(order[k] == token);
            assert(numbers[order[k]] == k);
        }
        Some(indexer)
    }
}

/// Numbers the tokens of the headlines that the stems stand for. There is no
/// indexer where the headlines hold no token, or as many as the machine's
/// largest integer.
pub fn create_word_indexer(tokenizer: &nlprule::Tokenizer, stems: &Vec<String>) -> (r: Option<
    Indexer,
>)
    ensures
        exists|lists: Seq<Seq<Seq<char>>>| #[trigger]
            tokens_of_headlines(lists, stems.deep_view()) && (r is Some <==> 0
                < lists.flatten().len() < usize::MAX) && (r matches Some(indexer) ==> numbers(
                indexer@,
                lists.flatten(),
            )),
        stems.len() == 0 ==> r is None,
{
    let all = all_headline_tokens(tokenizer, stems);
    let ghost lists = choose|lists: Seq<Seq<Seq<char>>>| #[trigger]
        tokens_of_headlines(lists, stems.deep_view()) && all.deep_view() == lists.flatten();
    assert(stems.len() == 0 ==> lists.flatten().len() == 0);
    if all.len() < usize::MAX {
        index_tokens(&all)
    } else {
        None
    }
}

} // verus!
