//! The records of all escrows, keyed by order hash.

use vstd::prelude::*;

use crate::order_hash::{order_hash, OrderParameters};
use crate::record::{Escrow, EscrowState};
use crate::types::{bytes32_eq, Bytes32};

verus! {

impl EscrowState {
    /// The parameters of the record that its order hash is made of.
    pub open spec fn parameters(self) -> OrderParameters {
        OrderParameters {
            maker: self.maker,
            taker: self.taker,
            token: self.token,
            amount: self.amount,
            hashlock: self.hashlock,
            timelocks: self.timelocks,
            is_src: self.is_src,
        }
    }

    /// The order hash of the parameters of the record.
    pub open spec fn order_hash(self) -> Seq<u8> {
        self.parameters().order_hash()
    }
}

/// What the store holds under one order hash: a record, or nothing any more
/// once the record was deleted.
struct StoreEntry {
    key: Bytes32,
    record: Option<Escrow>,
}

/// The record store: each order hash that was ever used, with its record
/// while that exists.
pub struct EscrowStore {
    entries: Vec<StoreEntry>,
}

impl StoreEntry {
    spec fn state(self) -> Option<EscrowState> {
        match self.record {
            Some(escrow) => Some(escrow@),
            None => None,
        }
    }
}

impl EscrowStore {
    /// The invariant of the store: no order hash stands twice, and every
    /// record is well formed and stands under the order hash of its own
    /// parameters.
    pub closed spec fn well_formed(&self) -> bool {
        &&& forall|i: int, j: int|
            0 <= i < j < self.entries@.len() ==> self.entries@[i].key@ != self.entries@[j].key@
        &&& forall|i: int|
            0 <= i < self.entries@.len() ==> (#[trigger] self.entries@[i].state() matches Some(state) ==> {
                &&& state.well_formed()
                &&& state.order_hash() == self.entries@[i].key@
            })
    }

    closed spec fn holds(self, key: Seq<u8>) -> bool {
        exists|i: int| 0 <= i < self.entries@.len() && self.entries@[i].key@ == key
    }

    closed spec fn place_of(self, key: Seq<u8>) -> int {
        choose|i: int| 0 <= i < self.entries@.len() && self.entries@[i].key@ == key
    }

    /// The store as a map from each order hash that was ever used to its
    /// record, or to `None` once the record was deleted.
    pub closed spec fn view(&self) -> Map<Seq<u8>, Option<EscrowState>> {
        Map::new(|key: Seq<u8>| self.holds(key), |key: Seq<u8>| self.entries@[self.place_of(key)].state())
    }

    /// Whether a record is stored under `key`.
    pub open spec fn is_live(&self, key: Seq<u8>) -> bool {
        self@.dom().contains(key) && self@[key] is Some
    }

    /// The invariant seen from outside: every record that is stored is well
    /// formed, so claimed and cancelled never hold together and there is one
    /// used-parts entry for each part, and it stands under the order hash of
    /// its own parameters.
    pub proof fn lemma_stored_record_is_sound(&self, key: Seq<u8>)
        requires
            self.well_formed(),
            self.is_live(key),
        ensures
            self@[key]->0.well_formed(),
            self@[key]->0.order_hash() == key,
    {
        let i = self.place_of(key);
        assert(self.entries@[i].state() is Some);
    }

    /// A store without any record.
    pub fn new() -> (store: EscrowStore)
        ensures
            store.well_formed(),
            store@ == Map::<Seq<u8>, Option<EscrowState>>::empty(),
    {
        let store = EscrowStore { entries: Vec::new() };
        assert(store@ =~= Map::<Seq<u8>, Option<EscrowState>>::empty());
        store
    }

    fn find(&self, key: &Bytes32) -> (place: Option<usize>)
        requires
            self.well_formed(),
        ensures
            match place {
                Some(i) => i < self.entries@.len() && self.entries@[i as int].key@ == key@ && self.place_of(key@)
                    == i && self.holds(key@),
                None => !self.holds(key@),
            },
    {
        let mut i: usize = 0;
        while i < self.entries.len()
            invariant
                self.well_formed(),
                i <= self.entries@.len(),
                forall|j: int| 0 <= j < i ==> self.entries@[j].key@ != key@,
            decreases self.entries@.len() - i,
        {
            if bytes32_eq(&self.entries[i].key, key) {
                return Some(i);
            }
            i += 1;
        }
        None
    }

    /// Whether a record is stored under `key`.
    pub fn contains(&self, key: &Bytes32) -> (live: bool)
        requires
            self.well_formed(),
        ensures
            live == self.is_live(key@),
    {
        match self.find(key) {
            Some(i) => self.entries[i].record.is_some(),
            None => false,
        }
    }

    /// Whether `key` was ever used, for a record that is stored or for one
    /// that was deleted.
    pub fn was_used(&self, key: &Bytes32) -> (used: bool)
        requires
            self.well_formed(),
        ensures
            used == self@.dom().contains(key@),
    {
        self.find(key).is_some()
    }

    /// A copy of the record under `key`, if one is stored.
    pub fn get(&self, key: &Bytes32) -> (found: Option<Escrow>)
        requires
            self.well_formed(),
        ensures
            match found {
                Some(escrow) => self.is_live(key@) && self@[key@] == Some(escrow@) && escrow@.well_formed()
                    && escrow@.order_hash() == key@,
                None => !self.is_live(key@),
            },
    {
        match self.find(key) {
            Some(i) => match &self.entries[i].record {
                Some(escrow) => {
                    assert(self.entries@[i as int].state() == Some(escrow@));
                    Some(escrow.duplicate())
                },
                None => None,
            },
            None => None,
        }
    }

    /// Takes in what was kept elsewhere under `key`: a record, or the mark of
    /// a deleted one. Refused, with the store unchanged, where the order hash
    /// is in the store already, where the record is not well formed, and
    /// where `key` is not the order hash of the record's own parameters.
    pub fn restore(&mut self, key: Bytes32, record: Option<Escrow>) -> (restored: bool)
        requires
            old(self).well_formed(),
        ensures
            final(self).well_formed(),
            restored == (!old(self)@.dom().contains(key@) && (record matches Some(escrow) ==> escrow@.well_formed()
                && escrow@.order_hash() == key@)),
            restored ==> final(self)@ == old(self)@.insert(
                key@,
                match record {
                    Some(escrow) => Some(escrow@),
                    None => None,
                },
            ),
            !restored ==> final(self)@ == old(self)@,
    {
        if self.find(&key).is_some() {
            return false;
        }
        match record {
            Some(escrow) => {
                if !escrow.is_well_formed() {
                    return false;
                }
                let expected = order_hash(
                    &escrow.maker,
                    &escrow.taker,
                    &escrow.token,
                    escrow.amount,
                    &escrow.hashlock.value,
                    &escrow.timelocks,
                    escrow.is_src,
                );
                if !bytes32_eq(&expected, &key) {
                    return false;
                }
                self.insert(key, escrow);
                true
            },
            None => {
                self.push_entry(key, None);
                true
            },
        }
    }

    /// Stores a new record under an order hash that was never used.
    pub(crate) fn insert(&mut self, key: Bytes32, escrow: Escrow)
        requires
            old(self).well_formed(),
            !old(self)@.dom().contains(key@),
            escrow@.well_formed(),
            escrow@.order_hash() == key@,
        ensures
            final(self).well_formed(),
            final(self)@ == old(self)@.insert(key@, Some(escrow@)),
    {
        self.push_entry(key, Some(escrow));
    }

    /// Adds an entry for an order hash that was never used: a record, or the
    /// mark of a deleted one.
    fn push_entry(&mut self, key: Bytes32, record: Option<Escrow>)
        requires
            old(self).well_formed(),
            !old(self)@.dom().contains(key@),
            record matches Some(escrow) ==> escrow@.well_formed() && escrow@.order_hash() == key@,
        ensures
            final(self).well_formed(),
            final(self)@ == old(self)@.insert(
                key@,
                match record {
                    Some(escrow) => Some(escrow@),
                    None => None,
                },
            ),
    {
        let ghost before = *self;
        let entry = StoreEntry { key, record };
        let ghost state = entry.state();
        self.entries.push(entry);
        proof {
            let after = *self;
            let last = before.entries@.len() as int;
            assert(after.entries@[last].state() == state);
            assert forall|k: Seq<u8>| after.holds(k) <==> (k == key@ || before.holds(k)) by {
                if before.holds(k) {
                    let i = before.place_of(k);
                    assert(after.entries@[i].key@ == k);
                }
                if k == key@ {
                    assert(after.entries@[last].key@ == k);
                }
            }
            assert forall|k: Seq<u8>| after.holds(k) implies #[trigger] after@[k] == before@.insert(key@, state)[k] by {
                let i = after.place_of(k);
                if k != key@ {
                    let j = before.place_of(k);
                    assert(i < last);
                    assert(before.entries@[i].key@ == k);
                    assert(i == j);
                }
            }
            assert(after@ =~= before@.insert(key@, state));
        }
    }

    /// Puts `slot` in the place of what stands under an order hash that was
    /// used before.
    fn put(&mut self, place: usize, key: Bytes32, slot: Option<Escrow>)
        requires
            old(self).well_formed(),
            place < old(self).entries@.len(),
            old(self).entries@[place as int].key@ == key@,
            slot matches Some(escrow) ==> escrow@.well_formed() && escrow@.order_hash() == key@,
        ensures
            final(self).well_formed(),
            final(self)@ == old(self)@.insert(
                key@,
                match slot {
                    Some(escrow) => Some(escrow@),
                    None => None,
                },
            ),
    {
        let ghost before = *self;
        let entry = StoreEntry { key, record: slot };
        let ghost state = entry.state();
        self.entries.set(place, entry);
        proof {
            let after = *self;
            assert(after.entries@[place as int].state() == state);
            assert forall|k: Seq<u8>| after.holds(k) <==> before.holds(k) by {
                if before.holds(k) {
                    let i = before.place_of(k);
                    assert(after.entries@[i].key@ == k);
                }
                if after.holds(k) {
                    let i = after.place_of(k);
                    assert(before.entries@[i].key@ == k);
                }
            }
            assert(before.holds(key@));
            assert forall|k: Seq<u8>| after.holds(k) implies #[trigger] after@[k] == before@.insert(key@, state)[k] by {
                let i = after.place_of(k);
                let j = before.place_of(k);
                assert(before.entries@[i].key@ == k);
                assert(i == j);
            }
            assert(after@ =~= before@.insert(key@, state));
        }
    }

    /// Writes back the record under `key` after a transition that kept its
    /// parameters.
    pub(crate) fn update(&mut self, key: &Bytes32, escrow: Escrow) -> (stored: bool)
        requires
            old(self).well_formed(),
            escrow@.well_formed(),
            escrow@.order_hash() == key@,
        ensures
            final(self).well_formed(),
            stored == old(self)@.dom().contains(key@),
            stored ==> final(self)@ == old(self)@.insert(key@, Some(escrow@)),
            !stored ==> final(self)@ == old(self)@,
    {
        match self.find(key) {
            Some(place) => {
                self.put(place, *key, Some(escrow));
                true
            },
            None => false,
        }
    }

    /// Deletes the record under `key`; the order hash stays used.
    pub(crate) fn delete(&mut self, key: &Bytes32) -> (deleted: bool)
        requires
            old(self).well_formed(),
        ensures
            final(self).well_formed(),
            deleted == old(self)@.dom().contains(key@),
            deleted ==> final(self)@ == old(self)@.insert(key@, None),
            !deleted ==> final(self)@ == old(self)@,
    {
        match self.find(key) {
            Some(place) => {
                self.put(place, *key, None);
                true
            },
            None => false,
        }
    }
}

} // verus!
