//! Sparse map from screen positions to hyperlink targets.

use std::collections::HashMap;

use vstd::prelude::*;

verus! {

broadcast use vstd::std_specs::hash::group_hash_axioms;

/// Columns are told apart by the low 64 bits of a key.
pub open spec fn key_of(row: usize, col: usize) -> u128 {
    (row * 0x1_0000_0000_0000_0000 + col) as u128
}

/// Hyperlink targets by (absolute row, column).
pub struct LinkMap {
    map: HashMap<u128, String>,
}

impl View for LinkMap {
    type V = Map<(usize, usize), Seq<char>>;

    closed spec fn view(&self) -> Map<(usize, usize), Seq<char>> {
        Map::new(
            |at: (usize, usize)| self.map@.contains_key(key_of(at.0, at.1)),
            |at: (usize, usize)| self.map@[key_of(at.0, at.1)]@,
        )
    }
}

fn key(row: usize, col: usize) -> (k: u128)
    ensures
        k == key_of(row, col),
{
    row as u128 * 0x1_0000_0000_0000_0000 + col as u128
}

proof fn lemma_key_injective(a: (usize, usize), b: (usize, usize))
    ensures
        key_of(a.0, a.1) == key_of(b.0, b.1) ==> a == b,
{
}

impl LinkMap {
    pub fn new() -> (links: Self)
        ensures
            links@ == Map::<(usize, usize), Seq<char>>::empty(),
    {
        let links = LinkMap { map: HashMap::new() };
        assert(links@ =~= Map::<(usize, usize), Seq<char>>::empty());
        links
    }

    /// Record `url` for a position, replacing what it had.
    pub fn insert(&mut self, row: usize, col: usize, url: String)
        ensures
            final(self)@ == old(self)@.insert((row, col), url@),
    {
        let k = key(row, col);
        self.map.insert(k, url);
        proof {
            assert forall|at: (usize, usize)|
                #[trigger] self@.contains_key(at) == old(self)@.insert(
                    (row, col),
                    url@,
                ).contains_key(at) by {
                lemma_key_injective(at, (row, col));
            }
            assert forall|at: (usize, usize)| self@.contains_key(at) implies #[trigger] self@[at]
                == old(self)@.insert((row, col), url@)[at] by {
                lemma_key_injective(at, (row, col));
            }
            assert(self@ =~= old(self)@.insert((row, col), url@));
        }
    }

    /// The target recorded for a position.
    pub fn get(&self, row: usize, col: usize) -> (url: Option<String>)
        ensures
            url is Some <==> self@.contains_key((row, col)),
            url matches Some(u) ==> u@ == self@[(row, col)],
    {
        let k = key(row, col);
        match self.map.get(&k) {
            Some(url) => Some(url.clone()),
            None => None,
        }
    }
}

} // verus!
