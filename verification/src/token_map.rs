//! A map from tokens to numbers.

use vstd::prelude::*;

verus! {

/// A finite map from tokens to numbers that remembers the order in which its
/// tokens came.
pub struct TokenMap {
    entries: Vec<(String, usize)>,
}

/// The tokens of a list of entries, in order.
spec fn tokens_of(entries: Seq<(String, usize)>) -> Seq<Seq<char>> {
    Seq::new(entries.len(), |i: int| entries[i].0@)
}

/// The position of a token in a list of entries, where it is there.
fn find(entries: &Vec<(String, usize)>, token: &String) -> (r: Option<usize>)
    ensures
        match r {
            Some(i) => i < entries.len() && tokens_of(entries@)[i as int] == token@,
            None => !tokens_of(entries@).contains(token@),
        },
{
    let mut i: usize = 0;
    while i < entries.len()
        invariant
            i <= entries.len(),
            forall|j: int| 0 <= j < i ==> tokens_of(entries@)[j] != token@,
        decreases entries.len() - i,
    {
        assert(tokens_of(entries@)[i as int] == entries[i as int].0@);
        if entries[i].0 == *token {
            return Some(i);
        }
        i += 1;
    }
    None
}

impl View for TokenMap {
    type V = Map<Seq<char>, usize>;

    closed spec fn view(&self) -> Map<Seq<char>, usize> {
        Map::new(
            |token: Seq<char>| self.tokens().contains(token),
            |token: Seq<char>| self.entries[self.tokens().index_of(token)].1,
        )
    }
}

impl TokenMap {
    #[verifier::type_invariant]
    closed spec fn holds(self) -> bool {
        self.tokens().no_duplicates()
    }

    /// The tokens of the map, in the order in which they were first inserted.
    pub closed spec fn tokens(&self) -> Seq<Seq<char>> {
        tokens_of(self.entries@)
    }

    /// The tokens are the keys of the map, each once.
    pub open spec fn tokens_are_keys(&self) -> bool {
        &&& self.tokens().no_duplicates()
        &&& self@.dom().finite()
        &&& self@.dom().len() == self.tokens().len()
        &&& forall|token: Seq<char>| self.tokens().contains(token) <==> self@.contains_key(token)
    }

    /// A map without entries.
    pub fn new() -> (map: TokenMap)
        ensures
            map@ == Map::<Seq<char>, usize>::empty(),
            map.tokens() == Seq::<Seq<char>>::empty(),
    {
        let map = TokenMap { entries: Vec::new() };
        assert(map.tokens() =~= Seq::empty());
        assert(map@ =~= Map::empty());
        map
    }

    /// The number of entries.
    pub fn len(&self) -> (n: usize)
        ensures
            n == self.tokens().len(),
            self.tokens_are_keys(),
    {
        proof {
            use_type_invariant(self);
            self.tokens().unique_seq_to_set();
            assert(self@.dom() =~= self.tokens().to_set());
        }
        self.entries.len()
    }

    /// The token at a position of the order of insertion.
    pub fn token_at(&self, i: usize) -> (token: &String)
        requires
            i < self.tokens().len(),
        ensures
            token@ == self.tokens()[i as int],
            self@.contains_key(token@),
    {
        assert(self.tokens()[i as int] == self.entries[i as int].0@);
        &self.entries[i].0
    }

    /// The number of the token at a position of the order of insertion.
    pub fn value_at(&self, i: usize) -> (value: usize)
        requires
            i < self.tokens().len(),
        ensures
            value == self@[self.tokens()[i as int]],
    {
        proof {
            use_type_invariant(self);
            let token = self.tokens()[i as int];
            assert(self.tokens().contains(token));
            assert(self.tokens().index_of(token) == i);
        }
        self.entries[i].1
    }

    /// The number of a token, where the map holds it.
    pub fn get(&self, token: &String) -> (r: Option<usize>)
        ensures
            r == (if self@.contains_key(token@) {
                Some(self@[token@])
            } else {
                None
            }),
    {
        match find(&self.entries, token) {
            Some(i) => Some(self.value_at(i)),
            None => None,
        }
    }

    /// The map in which a token has its number; a number that the token had is
    /// replaced.
    pub fn insert(self, token: String, value: usize) -> (map: TokenMap)
        ensures
            map@ == self@.insert(token@, value),
            map.tokens() == (if self@.contains_key(token@) {
                self.tokens()
            } else {
                self.tokens().push(token@)
            }),
    {
        proof {
            use_type_invariant(&self);
        }
        let ghost before = self.tokens();
        let ghost before_map = self@;
        let ghost name = token@;
        let mut entries = self.entries;
        match find(&entries, &token) {
            Some(i) => {
                entries.set(i, (token, value));
                assert(tokens_of(entries@) =~= before);
            },
            None => {
                entries.push((token, value));
                assert(tokens_of(entries@) =~= before.push(name));
                assert forall|i: int, j: int|
                    0 <= i < j < before.len() + 1 implies before.push(name)[i] != before.push(
                    name,
                )[j] by {
                    if j == before.len() {
                        assert(before.contains(before[i]));
                    }
                }
            },
        }
        let map = TokenMap { entries };
        let ghost now = map.tokens();
        assert forall|t: Seq<char>| now.contains(t) == (before.contains(t) || t == name) by {
            if before.contains(t) {
                let k = before.index_of(t);
                assert(now[k] == t);
            }
            if t == name {
                if before.contains(name) {
                    assert(now.contains(t));
                } else {
                    assert(now[before.len() as int] == t);
                }
            }
            if now.contains(t) {
                let k = now.index_of(t);
                if k < before.len() {
                    assert(before[k] == t);
                }
            }
        }
        assert forall|t: Seq<char>| now.contains(t) implies #[trigger] map@[t]
            == before_map.insert(name, value)[t] by {
            let k = now.index_of(t);
            assert(now[k] == t);
            if t != name {
                assert(before[k] == t);
                assert(before.index_of(t) == k);
            }
        }
        assert(map@ =~= before_map.insert(name, value));
        map
    }
}

} // verus!
