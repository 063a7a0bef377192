//! The named-key directory: the names by which a contract finds its keys
//! again.

use crate::assoc::{
    bound, lemma_position_is, lemma_put_unique, lemma_unbind_unique, lookup, position, put,
    unbind, unique_keys,
};
use crate::codec::str_equal;
use crate::status::ApiFailure;
use crate::uref::Key;
use vstd::prelude::*;

verus! {

/// A name and the key that it stands for.
pub struct NamedKey {
    name: String,
    key: Key,
}

/// A directory from names to keys, in the order in which the names came. No
/// name occurs twice.
pub struct NamedKeys {
    entries: Vec<NamedKey>,
}

impl View for NamedKeys {
    type V = Seq<(Seq<char>, Seq<u8>)>;

    closed spec fn view(&self) -> Seq<(Seq<char>, Seq<u8>)> {
        Seq::new(self.entries@.len(), |i: int| (self.entries@[i].name@, self.entries@[i].key@))
    }
}

impl NamedKeys {
    /// Whether the directory is well formed: no name occurs twice.
    pub open spec fn wf(&self) -> bool {
        unique_keys(self@)
    }

    /// The empty directory.
    pub fn new() -> (directory: NamedKeys)
        ensures
            directory@ == Seq::<(Seq<char>, Seq<u8>)>::empty(),
            directory.wf(),
    {
        let directory = NamedKeys { entries: Vec::new() };
        directory
    }

    /// The number of names.
    pub fn len(&self) -> (len: usize)
        ensures
            len == self@.len(),
    {
        self.entries.len()
    }

    /// The index of the entry of `name`, or the number of entries where the
    /// directory does not hold the name.
    fn find(&self, name: &str) -> (index: usize)
        ensures
            index == position(self@, name@),
            index <= self@.len(),
            self@.len() == self.entries@.len(),
    {
        let mut i: usize = 0;
        while i < self.entries.len()
            invariant
                i <= self.entries@.len(),
                self@.len() == self.entries@.len(),
                forall|j: int| 0 <= j < i ==> self@[j].0 != name@,
            decreases self.entries@.len() - i,
        {
            if str_equal(self.entries[i].name.as_str(), name) {
                proof {
                    lemma_position_is(self@, name@, i as int);
                }
                return i;
            }
            i += 1;
        }
        proof {
            lemma_position_is(self@, name@, self@.len() as int);
        }
        i
    }

    /// Whether the directory holds `name`.
    pub fn has(&self, name: &str) -> (held: bool)
        ensures
            held == bound(self@, name@),
    {
        self.find(name) < self.entries.len()
    }

    /// The key that `name` stands for; `MissingKey` where the directory does
    /// not hold the name.
    pub fn get(&self, name: &str) -> (key: Result<&Key, ApiFailure>)
        ensures
            bound(self@, name@) ==> key.is_ok() && Some(key.unwrap()@) == lookup(self@, name@),
            !bound(self@, name@) ==> key == Err::<&Key, ApiFailure>(ApiFailure::MissingKey),
    {
        let index = self.find(name);
        if index < self.entries.len() {
            Ok(&self.entries[index].key)
        } else {
            Err(ApiFailure::MissingKey)
        }
    }

    /// Makes `name` stand for `key`. A name that the directory holds keeps
    /// its place and stands for the new key; a new name goes to the end.
    pub fn put(&mut self, name: String, key: Key)
        requires
            old(self).wf(),
        ensures
            final(self)@ == put(old(self)@, name@, key@),
            final(self).wf(),
    {
        proof {
            lemma_put_unique(self@, name@, key@);
        }
        let index = self.find(name.as_str());
        if index < self.entries.len() {
            self.entries[index] = NamedKey { name, key };
        } else {
            self.entries.push(NamedKey { name, key });
        }
        assert(self@ =~= put(old(self)@, name@, key@));
    }

    /// Takes `name` out of the directory. Where the directory does not hold
    /// the name, nothing changes.
    pub fn remove(&mut self, name: &str)
        requires
            old(self).wf(),
        ensures
            final(self)@ == unbind(old(self)@, name@),
            final(self).wf(),
    {
        proof {
            lemma_unbind_unique(self@, name@);
        }
        let index = self.find(name);
        if index < self.entries.len() {
            self.entries.remove(index);
        }
    }

    /// The name of the entry at `index`, in the order in which the names
    /// came.
    pub fn name_at(&self, index: usize) -> (name: &str)
        requires
            index < self@.len(),
        ensures
            name@ == self@[index as int].0,
    {
        self.entries[index].name.as_str()
    }
}

} // verus!
