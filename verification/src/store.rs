//! The two durable regions the service consumes: a scalar cell holding the
//! last issued identifier, and a map from identifier to serialized record.
//! Both are stable structures of the `ic_stable_structures` crate, held
//! behind opaque wrappers; their abstract contents are named by
//! uninterpreted spec functions, and each method's contract states what the
//! crate's source shows of that call.

use vstd::prelude::*;
use ic_stable_structures::{Cell, DefaultMemoryImpl, StableBTreeMap};

verus! {

/// A durable 64-bit counter cell.
#[verifier::external_body]
pub struct IdCounter {
    cell: Cell<u64, DefaultMemoryImpl>,
}

/// The value currently held by the counter cell.
pub uninterp spec fn id_counter_value(c: &IdCounter) -> u64;

/// A durable map from 64-bit identifier to serialized record.
#[verifier::external_body]
pub struct RecordStore {
    map: StableBTreeMap<u64, Vec<u8>, DefaultMemoryImpl>,
}

/// The entries currently held by the record map.
pub uninterp spec fn record_store_contents(s: &RecordStore) -> Map<u64, Seq<u8>>;

impl IdCounter {
    /// Relies on `Cell::new`: it stores the given value in the fresh memory
    /// region and holds it.
    #[verifier::external_body]
    pub fn new() -> (c: IdCounter)
        ensures
            id_counter_value(&c) == 0,
    {
        IdCounter { cell: Cell::new(DefaultMemoryImpl::default(), 0) }
    }

    /// Relies on `Cell::get`: it returns the value the cell holds.
    #[verifier::external_body]
    pub fn get(&self) -> (v: u64)
        ensures
            v == id_counter_value(self),
    {
        *self.cell.get()
    }

    /// Relies on `Cell::set`: it writes the given value to the cell's
    /// memory and holds it from then on.
    #[verifier::external_body]
    pub fn set(&mut self, v: u64)
        ensures
            id_counter_value(final(self)) == v,
    {
        self.cell.set(v);
    }
}

impl RecordStore {
    /// Relies on `BTreeMap::new`: it creates an empty map in the fresh
    /// memory region.
    #[verifier::external_body]
    pub fn new() -> (s: RecordStore)
        ensures
            record_store_contents(&s).dom() == Set::<u64>::empty(),
    {
        RecordStore { map: StableBTreeMap::new(DefaultMemoryImpl::default()) }
    }

    /// Relies on `BTreeMap::get`: it returns a copy of the value stored
    /// under the key, if one exists.
    #[verifier::external_body]
    pub fn get(&self, id: u64) -> (r: Option<Vec<u8>>)
        ensures
            match r {
                Some(v) => record_store_contents(self).contains_key(id) && v@
                    == record_store_contents(self)[id],
                None => !record_store_contents(self).contains_key(id),
            },
    {
        self.map.get(&id)
    }

    /// Relies on `BTreeMap::insert`: it stores the value under the key,
    /// replacing any previous value there and leaving other entries as
    /// they were.
    #[verifier::external_body]
    pub fn insert(&mut self, id: u64, bytes: Vec<u8>)
        ensures
            record_store_contents(final(self)) == record_store_contents(old(self)).insert(
                id,
                bytes@,
            ),
    {
        self.map.insert(id, bytes);
    }
}

} // verus!
