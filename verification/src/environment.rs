//! The two maps that an evaluation reads and writes: variables and function bodies.

use crate::number::{opt_view, Decimal, Number};
use crate::token::{duplicate_tokens, syms, Sym, Token};
use vstd::hash_map::StringHashMap;
use vstd::prelude::*;

verus! {

/// Variables by name.
pub struct Variables {
    map: StringHashMap<Number>,
}

impl View for Variables {
    type V = Map<Seq<char>, Decimal>;

    closed spec fn view(&self) -> Map<Seq<char>, Decimal> {
        self.map@.map_values(|n: Number| n@)
    }
}

impl Variables {
    /// No variables.
    pub fn new() -> (r: Variables)
        ensures
            r@ == Map::<Seq<char>, Decimal>::empty(),
    {
        let r = Variables { map: StringHashMap::new() };
        assert(r@ =~= Map::<Seq<char>, Decimal>::empty());
        r
    }

    /// A copy of the value stored under `name`.
    pub fn get(&self, name: &str) -> (r: Option<Number>)
        ensures
            opt_view(r) == (if self@.contains_key(name@) {
                Some(self@[name@])
            } else {
                None
            }),
    {
        match self.map.get(name) {
            Some(n) => Some(n.duplicate()),
            None => None,
        }
    }

    /// Whether anything is stored under `name`.
    pub fn contains(&self, name: &str) -> (r: bool)
        ensures
            r == self@.contains_key(name@),
    {
        self.map.contains_key(name)
    }

    /// Stores `value` under `name`, in place of what was there.
    pub fn insert(&mut self, name: String, value: Number)
        ensures
            final(self)@ == old(self)@.insert(name@, value@),
    {
        self.map.insert(name, value);
        assert(self@ =~= old(self)@.insert(name@, value@));
    }

    /// Removes what is stored under `name`, if anything.
    pub fn remove(&mut self, name: &str)
        ensures
            final(self)@ == old(self)@.remove(name@),
    {
        self.map.remove(name);
        assert(self@ =~= old(self)@.remove(name@));
    }
}

/// Function bodies by name: the tokens of each body, as they were written.
pub struct Functions {
    map: StringHashMap<Vec<Token>>,
}

impl View for Functions {
    type V = Map<Seq<char>, Seq<Sym>>;

    closed spec fn view(&self) -> Map<Seq<char>, Seq<Sym>> {
        self.map@.map_values(|body: Vec<Token>| syms(body@))
    }
}

impl Functions {
    /// No functions.
    pub fn new() -> (r: Functions)
        ensures
            r@ == Map::<Seq<char>, Seq<Sym>>::empty(),
    {
        let r = Functions { map: StringHashMap::new() };
        assert(r@ =~= Map::<Seq<char>, Seq<Sym>>::empty());
        r
    }

    /// A copy of the body stored under `name`.
    pub fn get(&self, name: &str) -> (r: Option<Vec<Token>>)
        ensures
            match r {
                Some(body) => self@.contains_key(name@) && syms(body@) == self@[name@],
                None => !self@.contains_key(name@),
            },
    {
        match self.map.get(name) {
            Some(body) => Some(duplicate_tokens(body)),
            None => None,
        }
    }

    /// Whether anything is stored under `name`.
    pub fn contains(&self, name: &str) -> (r: bool)
        ensures
            r == self@.contains_key(name@),
    {
        self.map.contains_key(name)
    }

    /// Stores `body` under `name`, in place of what was there.
    pub fn insert(&mut self, name: String, body: Vec<Token>)
        ensures
            final(self)@ == old(self)@.insert(name@, syms(body@)),
    {
        self.map.insert(name, body);
        assert(self@ =~= old(self)@.insert(name@, syms(body@)));
    }

    /// Removes what is stored under `name`, if anything.
    pub fn remove(&mut self, name: &str)
        ensures
            final(self)@ == old(self)@.remove(name@),
    {
        self.map.remove(name);
        assert(self@ =~= old(self)@.remove(name@));
    }
}

} // verus!
