//! A map from cells to values.

use vstd::prelude::*;
use std::collections::hash_map::Entry;
use std::collections::HashMap;
use super::hex::Hex;

verus! {

broadcast use vstd::std_specs::hash::group_hash_axioms;

/// The number that a cell is stored under: its two coordinates, each
/// shifted to be non-negative, side by side in one word.
pub open spec fn spec_cell_key(hex: Hex) -> u64 {
    ((hex.q - i32::MIN) * 0x1_0000_0000 + (hex.r - i32::MIN)) as u64
}

/// Different cells are stored under different numbers.
pub proof fn lemma_cell_key_injective(a: Hex, b: Hex)
    ensures
        spec_cell_key(a) == spec_cell_key(b) ==> a == b,
{
}

/// The number that a cell is stored under.
fn cell_key(hex: Hex) -> (key: u64)
    ensures
        key == spec_cell_key(hex),
{
    let q: u64 = (hex.q as i64 - i32::MIN as i64) as u64;
    let r: u64 = (hex.r as i64 - i32::MIN as i64) as u64;
    q * 0x1_0000_0000 + r
}

/// A finite map from cells to values of type `V`.
pub struct HexMap<V> {
    cells: HashMap<u64, V>,
}

impl<V> View for HexMap<V> {
    type V = Map<Hex, V>;

    closed spec fn view(&self) -> Map<Hex, V> {
        Map::new(
            |hex: Hex| self.cells@.contains_key(spec_cell_key(hex)),
            |hex: Hex| self.cells@[spec_cell_key(hex)],
        )
    }
}

impl<V> HexMap<V> {
    /// The map that holds no cell.
    pub fn new() -> (map: Self)
        ensures
            map@ == Map::<Hex, V>::empty(),
    {
        let map = HexMap { cells: HashMap::new() };
        assert(map@ =~= Map::<Hex, V>::empty());
        map
    }

    pub fn contains(&self, hex: Hex) -> (present: bool)
        ensures
            present == self@.contains_key(hex),
    {
        self.cells.contains_key(&cell_key(hex))
    }

    pub fn get(&self, hex: Hex) -> (value: Option<&V>)
        ensures
            match value {
                Some(found) => self@.contains_key(hex) && *found == self@[hex],
                None => !self@.contains_key(hex),
            },
    {
        self.cells.get(&cell_key(hex))
    }

    /// A mutable borrow of the cell's value; what is written through it is
    /// what the map holds afterwards.
    pub fn get_mut(&mut self, hex: Hex) -> (value: Option<&mut V>)
        ensures
            match value {
                Some(found) => {
                    &&& old(self)@.contains_key(hex)
                    &&& *found == old(self)@[hex]
                    &&& final(self)@ == old(self)@.insert(hex, *final(found))
                },
                None => !old(self)@.contains_key(hex) && final(self)@ == old(self)@,
            },
    {
        proof {
            assert forall|other: Hex| spec_cell_key(other) == spec_cell_key(hex) implies other
                == hex by {
                lemma_cell_key_injective(other, hex);
            }
        }
        match self.cells.entry(cell_key(hex)) {
            Entry::Occupied(occupied) => Some(occupied.into_mut()),
            Entry::Vacant(_) => None,
        }
    }

    pub fn insert(&mut self, hex: Hex, value: V)
        ensures
            final(self)@ == old(self)@.insert(hex, value),
    {
        self.cells.insert(cell_key(hex), value);
        proof {
            assert forall|other: Hex| spec_cell_key(other) == spec_cell_key(hex) implies other
                == hex by {
                lemma_cell_key_injective(other, hex);
            }
            assert(self@ =~= old(self)@.insert(hex, value));
        }
    }

    pub fn remove(&mut self, hex: Hex)
        ensures
            final(self)@ == old(self)@.remove(hex),
    {
        self.cells.remove(&cell_key(hex));
        proof {
            assert forall|other: Hex| spec_cell_key(other) == spec_cell_key(hex) implies other
                == hex by {
                lemma_cell_key_injective(other, hex);
            }
            assert(self@ =~= old(self)@.remove(hex));
        }
    }

    pub fn clear(&mut self)
        ensures
            final(self)@ == Map::<Hex, V>::empty(),
    {
        self.cells.clear();
        assert(self@ =~= Map::<Hex, V>::empty());
    }
}

} // verus!
