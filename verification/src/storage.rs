//! The global value store, and the allocator of references into it.

use crate::assoc::{
    as_map, lemma_as_map_put, lemma_position_is, lemma_put_unique, position, put, unique_keys,
};
use crate::status::ApiFailure;
use crate::uref::{uref_key_encoding, AccessRights, Key, URef, URefView, RIGHTS_READ_ADD_WRITE};
use crate::value::{mergeable, merged, TypedValue, ValueView};
use vstd::prelude::*;

verus! {

/// Calls `rand::random` for a new address. Nothing is claimed of the result:
/// it is whatever the thread's generator gives.
#[verifier::external_body]
pub(crate) fn random_address() -> (addr: [u8; 32]) {
    rand::random()
}

/// The store after `value` is added under `key`: put there where the store
/// holds nothing under the key, merged into what it holds where the two can
/// be merged, and nothing where they cannot.
pub open spec fn added(
    store: Map<Seq<u8>, ValueView>,
    key: Seq<u8>,
    value: ValueView,
) -> Option<Map<Seq<u8>, ValueView>> {
    if !store.contains_key(key) {
        Some(store.insert(key, value))
    } else if mergeable(store[key], value) {
        Some(store.insert(key, merged(store[key], value)))
    } else {
        None
    }
}

/// A key and the value that the store holds under it.
pub struct StoredValue {
    key: Key,
    value: TypedValue,
}

/// The store of typed values by key: what stands for the state of the chain.
pub struct GlobalStore {
    entries: Vec<StoredValue>,
}

impl View for GlobalStore {
    type V = Map<Seq<u8>, ValueView>;

    closed spec fn view(&self) -> Map<Seq<u8>, ValueView> {
        as_map(self.entries())
    }
}

impl GlobalStore {
    /// The entries in the order in which their keys came.
    pub closed spec fn entries(&self) -> Seq<(Seq<u8>, ValueView)> {
        Seq::new(self.entries@.len(), |i: int| (self.entries@[i].key@, self.entries@[i].value@))
    }

    /// Whether the store is well formed: no key occurs twice.
    pub closed spec fn wf(&self) -> bool {
        unique_keys(self.entries())
    }

    /// The empty store.
    pub fn new() -> (store: GlobalStore)
        ensures
            store@ == Map::<Seq<u8>, ValueView>::empty(),
            store.wf(),
    {
        let store = GlobalStore { entries: Vec::new() };
        store
    }

    /// The index of the entry under `key`, or the number of entries where
    /// the store holds nothing under it.
    fn find(&self, key: &Key) -> (index: usize)
        ensures
            index == position(self.entries(), key@),
            index <= self.entries().len(),
            self.entries().len() == self.entries@.len(),
    {
        let mut i: usize = 0;
        while i < self.entries.len()
            invariant
                i <= self.entries@.len(),
                self.entries().len() == self.entries@.len(),
                forall|j: int| 0 <= j < i ==> self.entries()[j].0 != key@,
            decreases self.entries@.len() - i,
        {
            if self.entries[i].key.same_as(key) {
                proof {
                    lemma_position_is(self.entries(), key@, i as int);
                }
                return i;
            }
            i += 1;
        }
        proof {
            lemma_position_is(self.entries(), key@, self.entries().len() as int);
        }
        i
    }

    /// Whether the store holds a value under `key`.
    pub fn contains(&self, key: &Key) -> (held: bool)
        ensures
            held == self@.contains_key(key@),
    {
        self.find(key) < self.entries.len()
    }

    /// The value under `key`; `ValueNotFound` where the store holds nothing
    /// under it.
    pub fn read(&self, key: &Key) -> (value: Result<&TypedValue, ApiFailure>)
        ensures
            self@.contains_key(key@) ==> value.is_ok() && value.unwrap()@ == self@[key@],
            !self@.contains_key(key@) ==> value == Err::<&TypedValue, ApiFailure>(
                ApiFailure::ValueNotFound,
            ),
    {
        let index = self.find(key);
        if index < self.entries.len() {
            Ok(&self.entries[index].value)
        } else {
            Err(ApiFailure::ValueNotFound)
        }
    }

    /// Puts `value` under `key`, in place of what was there.
    pub fn write(&mut self, key: Key, value: TypedValue)
        requires
            old(self).wf(),
        ensures
            final(self)@ == old(self)@.insert(key@, value@),
            final(self).wf(),
    {
        proof {
            lemma_put_unique(self.entries(), key@, value@);
            lemma_as_map_put(self.entries(), key@, value@);
        }
        let index = self.find(&key);
        if index < self.entries.len() {
            self.entries[index] = StoredValue { key, value };
        } else {
            self.entries.push(StoredValue { key, value });
        }
        assert(self.entries() =~= put(old(self).entries(), key@, value@));
    }

    /// Merges `value` into what the store holds under `key`. Where it holds
    /// nothing there, `value` is put under the key. Where the two values
    /// cannot be merged, the failure is `TypeMismatch` and the store is as it
    /// was.
    pub fn add(&mut self, key: Key, value: TypedValue) -> (outcome: Result<(), ApiFailure>)
        requires
            old(self).wf(),
        ensures
            final(self).wf(),
            added(old(self)@, key@, value@).is_some() ==> (outcome.is_ok()
                && final(self)@ == added(old(self)@, key@, value@).unwrap()),
            added(old(self)@, key@, value@).is_none() ==> (outcome == Err::<(), ApiFailure>(
                ApiFailure::TypeMismatch,
            )
                && final(self)@ == old(self)@),
    {
        let sum = match self.read(&key) {
            Err(_) => value,
            Ok(stored) => match stored.merge(&value) {
                Ok(sum) => sum,
                Err(failure) => {
                    return Err(failure);
                },
            },
        };
        self.write(key, sum);
        Ok(())
    }

    /// Puts `value` under the key of a new reference to `addr`, which has the
    /// rights to read, to add and to write, and gives the reference.
    pub fn new_reference_at(&mut self, addr: [u8; 32], value: TypedValue) -> (uref: URef)
        requires
            old(self).wf(),
        ensures
            uref@ == (URefView { addr: addr@, rights: RIGHTS_READ_ADD_WRITE }),
            final(self)@ == old(self)@.insert(
                uref_key_encoding(addr@, RIGHTS_READ_ADD_WRITE),
                value@,
            ),
            final(self).wf(),
    {
        let uref = URef::new(addr, AccessRights::read_add_write());
        self.write(Key::from_uref(&uref), value);
        uref
    }

    /// Puts `value` under the key of a new reference to an address drawn at
    /// random, and gives the reference. What is under other keys stays.
    pub fn new_reference(&mut self, value: TypedValue) -> (uref: URef)
        requires
            old(self).wf(),
        ensures
            uref@.rights == RIGHTS_READ_ADD_WRITE,
            uref@.addr.len() == 32,
            final(self)@ == old(self)@.insert(
                uref_key_encoding(uref@.addr, RIGHTS_READ_ADD_WRITE),
                value@,
            ),
            final(self).wf(),
    {
        let addr = random_address();
        self.new_reference_at(addr, value)
    }
}

} // verus!
