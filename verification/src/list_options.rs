//! The query options of a list request: named text values, kept in the order in which the
//! request's parameters were walked.

use crate::entries::{
    distinct_keys, has_key, index_of, lemma_index_of_unique, lemma_put, put, value_of,
};
use vstd::prelude::*;

verus! {

/// Query options of a list request. No name occurs twice; the order of the entries is the
/// order in which they were inserted.
#[derive(Debug)]
pub struct ListOptions {
    entries: Vec<(String, String)>,
}

/// The names and values held by a vector of owned pairs.
pub open spec fn pairs_view(pairs: Seq<(String, String)>) -> Seq<(Seq<char>, Seq<char>)> {
    Seq::new(pairs.len(), |i: int| (pairs[i].0@, pairs[i].1@))
}

impl View for ListOptions {
    type V = Seq<(Seq<char>, Seq<char>)>;

    closed spec fn view(&self) -> Seq<(Seq<char>, Seq<char>)> {
        pairs_view(self.entries@)
    }
}

impl ListOptions {
    /// What holds of every value of this type: no name occurs twice.
    #[verifier::type_invariant]
    pub open spec fn well_formed(&self) -> bool {
        distinct_keys(self@)
    }

    /// No options at all.
    pub fn new() -> (options: ListOptions)
        ensures
            options@ == Seq::<(Seq<char>, Seq<char>)>::empty(),
    {
        let options = ListOptions { entries: Vec::new() };
        assert(options@ =~= Seq::<(Seq<char>, Seq<char>)>::empty());
        options
    }

    /// Number of options.
    pub fn len(&self) -> (n: usize)
        ensures
            n == self@.len(),
    {
        self.entries.len()
    }

    /// The option at position `i`, as name and value.
    pub fn entry(&self, i: usize) -> (pair: (&String, &String))
        requires
            i < self@.len(),
        ensures
            pair.0@ == self@[i as int].0,
            pair.1@ == self@[i as int].1,
    {
        let pair = &self.entries[i];
        (&pair.0, &pair.1)
    }

    fn position(&self, name: &String) -> (found: Option<usize>)
        ensures
            found is Some <==> has_key(self@, name@),
            found is Some ==> found.unwrap() == index_of(self@, name@),
    {
        proof {
            use_type_invariant(self);
        }
        let mut i: usize = 0;
        while i < self.entries.len()
            invariant
                i <= self.entries.len(),
                distinct_keys(self@),
                self@ == pairs_view(self.entries@),
                forall|j: int| 0 <= j < i ==> (#[trigger] self@[j]).0 != name@,
            decreases self.entries.len() - i,
        {
            if self.entries[i].0 == *name {
                proof {
                    lemma_index_of_unique(self@, i as int);
                }
                return Some(i);
            }
            i += 1;
        }
        None
    }

    /// Whether an option of this name is present.
    pub fn contains_key(&self, name: &str) -> (present: bool)
        ensures
            present == has_key(self@, name@),
    {
        self.position(&name.to_owned()).is_some()
    }

    /// The value given for `name`, if the option is present.
    pub fn get(&self, name: &str) -> (value: Option<&String>)
        ensures
            value is Some <==> has_key(self@, name@),
            value is Some ==> value.unwrap()@ == value_of(self@, name@),
    {
        match self.position(&name.to_owned()) {
            Some(i) => Some(&self.entries[i].1),
            None => None,
        }
    }

    /// Sets the option `name` to `value`. An option that is already present keeps its place
    /// and takes the new value; a new one becomes the last.
    pub fn insert(&mut self, name: String, value: String)
        ensures
            final(self)@ == put(old(self)@, name@, value@),
    {
        proof {
            use_type_invariant(&*self);
            lemma_put(self@, name@, value@);
        }
        let found = self.position(&name);
        let ghost before = self@;
        let mut entries: Vec<(String, String)> = Vec::new();
        std::mem::swap(&mut entries, &mut self.entries);
        match found {
            Some(i) => {
                entries.set(i, (name, value));
            },
            None => {
                entries.push((name, value));
            },
        }
        assert(pairs_view(entries@) =~= put(before, name@, value@));
        self.entries = entries;
    }
}

} // verus!
