//! The handle registry: the table that keeps the metadata of exported
//! documents, keyed by the address of the document.
//!
//! The table is a plain value. Whoever shares one table among several
//! callers guards it with one lock for the whole table.

use crate::extras::{Extras, XmlDocExtras};
use std::collections::HashMap;
use vstd::prelude::*;

verus! {

broadcast use vstd::std_specs::hash::group_hash_axioms;

/// The table from the address of an exported document to its metadata.
pub struct HandleRegistry {
    entries: HashMap<usize, XmlDocExtras>,
}

impl View for HandleRegistry {
    type V = Map<usize, Extras>;

    closed spec fn view(&self) -> Map<usize, Extras> {
        Map::new(|address: usize| self.entries@.contains_key(address), |address: usize| self.entries@[address]@)
    }
}

impl HandleRegistry {
    /// A table without entries.
    pub fn new() -> (registry: HandleRegistry)
        ensures
            registry@ == Map::<usize, Extras>::empty(),
    {
        let registry = HandleRegistry { entries: HashMap::new() };
        assert(registry@ =~= Map::<usize, Extras>::empty());
        registry
    }

    /// Enters `extras` under `address`, in place of what the table may hold
    /// there.
    pub fn register(&mut self, address: usize, extras: XmlDocExtras)
        ensures
            final(self)@ == old(self)@.insert(address, extras@),
    {
        self.entries.insert(address, extras);
        assert(self@ =~= old(self)@.insert(address, extras@));
    }

    /// Removes and returns what the table holds under `address`.
    pub fn take(&mut self, address: usize) -> (extras: Option<XmlDocExtras>)
        ensures
            final(self)@ == old(self)@.remove(address),
            extras is Some <==> old(self)@.contains_key(address),
            extras matches Some(found) ==> found@ == old(self)@[address],
    {
        let extras = self.entries.remove(&address);
        assert(self@ =~= old(self)@.remove(address));
        extras
    }

    /// Whether the table holds an entry under `address`.
    pub fn contains(&self, address: usize) -> (present: bool)
        ensures
            present == self@.contains_key(address),
    {
        self.entries.contains_key(&address)
    }

    /// Whether the table holds no entry.
    pub fn is_empty(&self) -> (empty: bool)
        ensures
            empty == (forall|address: usize| !self@.contains_key(address)),
    {
        let empty = self.entries.is_empty();
        proof {
            if empty {
                assert forall|address: usize| !self@.contains_key(address) by {
                    assert(!self.entries@.contains_key(address));
                }
            } else {
                if forall|address: usize| !self@.contains_key(address) {
                    assert forall|address: usize| !self.entries@.dom().contains(address) by {
                        assert(!self@.contains_key(address));
                    }
                    assert(self.entries@.dom() =~= Set::<usize>::empty());
                }
            }
        }
        empty
    }
}

/// Enters the metadata of the document at `doc` in the table.
pub fn register_extras(registry: &mut HandleRegistry, doc: usize, extras: XmlDocExtras)
    ensures
        final(registry)@ == old(registry)@.insert(doc, extras@),
{
    registry.register(doc, extras);
}

/// Removes and returns the metadata that the table holds for the document
/// at `doc`.
pub fn take_extras(registry: &mut HandleRegistry, doc: usize) -> (extras: Option<XmlDocExtras>)
    ensures
        final(registry)@ == old(registry)@.remove(doc),
        extras is Some <==> old(registry)@.contains_key(doc),
        extras matches Some(found) ==> found@ == old(registry)@[doc],
{
    registry.take(doc)
}

} // verus!
