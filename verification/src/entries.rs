//! Values by key, each key once.
use vstd::prelude::*;
use crate::model;
use crate::model::{find, put};

verus! {

/// Values by key, in the order in which the keys came.  No key occurs twice.
pub struct Entries<T: View> {
    entries: Vec<(String, T)>,
}

impl<T: View> View for Entries<T> {
    type V = Seq<(Seq<char>, T::V)>;

    closed spec fn view(&self) -> Seq<(Seq<char>, T::V)> {
        model::entries_view(self.entries@)
    }
}

impl<T: View> Entries<T> {
    #[verifier::type_invariant]
    spec fn each_key_once(&self) -> bool {
        model::distinct_keys(model::entries_view(self.entries@))
    }

    /// No entries.
    pub fn new() -> (r: Entries<T>)
        ensures
            r@ == Seq::<(Seq<char>, T::V)>::empty(),
    {
        let entries: Vec<(String, T)> = Vec::new();
        assert(model::entries_view(entries@) =~= Seq::empty());
        Entries { entries }
    }

    /// Puts a value under a key, in the place of what was there.
    pub fn insert(&mut self, key: String, value: T)
        ensures
            final(self)@ == model::with_entry(old(self)@, key@, value@),
            model::distinct_keys(final(self)@),
    {
        let mut entries: Vec<(String, T)> = Vec::new();
        proof {
            use_type_invariant(&*self);
            model::lemma_put_distinct(model::entries_view(self.entries@), key@, value@);
            assert(model::entries_view(entries@) =~= Seq::empty());
        }
        std::mem::swap(&mut entries, &mut self.entries);
        put(&mut entries, key, value);
        self.entries = entries;
    }

    /// The number of entries.
    pub fn len(&self) -> (r: usize)
        ensures
            r == self@.len(),
            model::distinct_keys(self@),
    {
        proof {
            use_type_invariant(self);
        }
        self.entries.len()
    }

    /// The value under a key, where there is one.
    pub fn get(&self, key: &str) -> (r: Option<&T>)
        ensures
            model::opt_view(r) == model::lookup(self@, key@),
    {
        find(&self.entries, key)
    }

    /// The key and the value of the `i`-th entry.
    pub fn at(&self, i: usize) -> (r: (&String, &T))
        requires
            i < self@.len(),
        ensures
            (r.0@, r.1@) == self@[i as int],
    {
        (&self.entries[i].0, &self.entries[i].1)
    }
}

} // verus!
