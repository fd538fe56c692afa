//! Where each entity is, and which entities are in each cell.

use vstd::prelude::*;
use super::components::Components;
use crate::entity::entity_id::EntityId;
use crate::hex::hex::Hex;
use crate::hex::map::HexMap;
use crate::seqs::lemma_drop_last_contains;
use crate::seqs::lemma_drop_last_no_duplicates;
use crate::seqs::lemma_push_contains;
use crate::seqs::lemma_push_no_duplicates;

verus! {

/// The occupants of a cell without `entity_id`, in their order.
pub open spec fn spec_without(occupants: Seq<EntityId>, entity_id: EntityId) -> Seq<EntityId>
    decreases occupants.len(),
{
    if occupants.len() == 0 {
        occupants
    } else if occupants.last() == entity_id {
        spec_without(occupants.drop_last(), entity_id)
    } else {
        spec_without(occupants.drop_last(), entity_id).push(occupants.last())
    }
}

/// The position of each entity that has one, and for each cell that was
/// ever occupied its occupants in the order of their arrival.
pub struct PositionsView {
    pub by_id: Map<EntityId, Hex>,
    pub by_hex: Map<Hex, Seq<EntityId>>,
}

/// One write to the position index.
pub enum PositionWrite {
    Put(EntityId, Hex),
    Take(EntityId),
}

impl PositionsView {
    /// The index that holds nothing.
    pub open spec fn empty() -> PositionsView {
        PositionsView { by_id: Map::empty(), by_hex: Map::empty() }
    }

    /// The two directions of the index agree: every entity with a position
    /// is among the occupants of its cell, every occupant of a cell has that
    /// cell as its position, and no occupant is listed twice.
    pub open spec fn wf(self) -> bool {
        &&& forall|entity_id: EntityId| #[trigger]
            self.by_id.contains_key(entity_id) ==> self.at(self.by_id[entity_id]).contains(
                entity_id,
            )
        &&& forall|hex: Hex, entity_id: EntityId| #[trigger]
            self.at(hex).contains(entity_id) ==> self.by_id.contains_key(entity_id)
                && self.by_id[entity_id] == hex
        &&& forall|hex: Hex| #[trigger] self.at(hex).no_duplicates()
    }

    /// The occupants of a cell; none where the cell was never occupied.
    pub open spec fn at(self, hex: Hex) -> Seq<EntityId> {
        if self.by_hex.contains_key(hex) {
            self.by_hex[hex]
        } else {
            Seq::empty()
        }
    }

    /// The cells and their occupants once `entity_id` has left its cell.
    pub open spec fn vacated(self, entity_id: EntityId) -> Map<Hex, Seq<EntityId>> {
        if self.by_id.contains_key(entity_id) && self.by_hex.contains_key(self.by_id[entity_id]) {
            let hex = self.by_id[entity_id];
            self.by_hex.insert(hex, spec_without(self.by_hex[hex], entity_id))
        } else {
            self.by_hex
        }
    }

    /// The index after `entity_id` has been put at `hex`: it leaves the cell
    /// it was in and becomes the last occupant of `hex`.
    pub open spec fn set(self, entity_id: EntityId, hex: Hex) -> PositionsView {
        let vacated = self.vacated(entity_id);
        let occupants = if vacated.contains_key(hex) {
            vacated[hex].push(entity_id)
        } else {
            seq![entity_id]
        };
        PositionsView {
            by_id: self.by_id.insert(entity_id, hex),
            by_hex: vacated.insert(hex, occupants),
        }
    }

    /// The index after `entity_id` has lost its position.
    pub open spec fn del(self, entity_id: EntityId) -> PositionsView {
        PositionsView { by_id: self.by_id.remove(entity_id), by_hex: self.vacated(entity_id) }
    }

    /// The index after one write.
    pub open spec fn write(self, write: PositionWrite) -> PositionsView {
        match write {
            PositionWrite::Put(entity_id, hex) => self.set(entity_id, hex),
            PositionWrite::Take(entity_id) => self.del(entity_id),
        }
    }

    /// The index after a sequence of writes, first to last.
    pub open spec fn write_all(self, writes: Seq<PositionWrite>) -> PositionsView
        decreases writes.len(),
    {
        if writes.len() == 0 {
            self
        } else {
            self.write_all(writes.drop_last()).write(writes.last())
        }
    }
}

/// The position component, with the reverse index from cells to occupants.
pub struct Positions {
    components: Components<Hex>,
    by_hex: HexMap<Vec<EntityId>>,
}

impl View for Positions {
    type V = PositionsView;

    closed spec fn view(&self) -> PositionsView {
        PositionsView {
            by_id: self.components@,
            by_hex: Map::new(
                |hex: Hex| self.by_hex@.contains_key(hex),
                |hex: Hex| self.by_hex@[hex]@,
            ),
        }
    }
}

impl Default for Positions {
    fn default() -> (positions: Self)
        ensures
            positions@ == PositionsView::empty(),
    {
        Positions::new()
    }
}

/// Takes `entity_id` out of a list of occupants.
fn withdraw(occupants: &mut Vec<EntityId>, entity_id: EntityId)
    ensures
        final(occupants)@ == spec_without(old(occupants)@, entity_id),
{
    let mut kept: Vec<EntityId> = Vec::new();
    let mut i: usize = 0;
    while i < occupants.len()
        invariant
            i <= occupants.len(),
            kept@ == spec_without(occupants@.take(i as int), entity_id),
        decreases occupants.len() - i,
    {
        proof {
            assert(occupants@.take(i + 1).drop_last() =~= occupants@.take(i as int));
        }
        if occupants[i] != entity_id {
            kept.push(occupants[i]);
        }
        i = i + 1;
    }
    proof {
        assert(occupants@.take(i as int) =~= occupants@);
    }
    *occupants = kept;
}

impl Positions {
    /// The index that holds nothing.
    pub fn new() -> (positions: Self)
        ensures
            positions@ == PositionsView::empty(),
            positions@.wf(),
    {
        let positions = Positions { components: Components::new(), by_hex: HexMap::new() };
        assert(positions@.by_hex =~= Map::<Hex, Seq<EntityId>>::empty());
        positions
    }

    /// The occupants of a cell, or nothing where the cell was never
    /// occupied.
    pub fn at(&self, hex: Hex) -> (occupants: Option<&Vec<EntityId>>)
        ensures
            match occupants {
                Some(found) => self@.by_hex.contains_key(hex) && found@ == self@.by_hex[hex],
                None => !self@.by_hex.contains_key(hex),
            },
            self@.wf() ==> forall|entity_id: EntityId|
                self@.at(hex).contains(entity_id) <==> (self@.by_id.contains_key(entity_id)
                    && self@.by_id[entity_id] == hex),
    {
        self.by_hex.get(hex)
    }

    pub fn has(&self, entity_id: EntityId) -> (present: bool)
        ensures
            present == self@.by_id.contains_key(entity_id),
    {
        self.components.has(entity_id)
    }

    pub fn get(&self, entity_id: EntityId) -> (hex: Option<&Hex>)
        ensures
            match hex {
                Some(found) => self@.by_id.contains_key(entity_id) && *found
                    == self@.by_id[entity_id],
                None => !self@.by_id.contains_key(entity_id),
            },
            self@.wf() ==> match hex {
                Some(found) => self@.at(*found).contains(entity_id),
                None => true,
            },
    {
        let hex = self.components.get(entity_id);
        proof {
            if self@.wf() && hex.is_some() {
                assert(self@.by_id.contains_key(entity_id));
                assert(self@.at(self@.by_id[entity_id]).contains(entity_id));
            }
        }
        hex
    }

    /// Removes `entity_id` from the occupants of the cell it is in.
    fn vacate(&mut self, entity_id: EntityId)
        ensures
            final(self)@.by_id == old(self)@.by_id,
            final(self)@.by_hex == old(self)@.vacated(entity_id),
    {
        let previous: Option<Hex> = match self.components.get(entity_id) {
            Some(hex) => Some(*hex),
            None => None,
        };
        if let Some(hex) = previous {
            match self.by_hex.get_mut(hex) {
                Some(occupants) => {
                    withdraw(occupants, entity_id);
                },
                None => {},
            }
        }
        assert(self@.by_hex =~= old(self)@.vacated(entity_id));
    }

    /// Puts `entity_id` at `hex`.
    pub fn set(&mut self, entity_id: EntityId, hex: Hex)
        ensures
            final(self)@ == old(self)@.set(entity_id, hex),
            old(self)@.wf() ==> final(self)@.wf(),
    {
        self.vacate(entity_id);
        self.components.set(entity_id, hex);
        match self.by_hex.get_mut(hex) {
            Some(occupants) => {
                occupants.push(entity_id);
            },
            None => {
                let mut occupants: Vec<EntityId> = Vec::with_capacity(1);
                occupants.push(entity_id);
                self.by_hex.insert(hex, occupants);
            },
        }
        proof {
            assert(self@.by_hex =~= old(self)@.set(entity_id, hex).by_hex);
            if old(self)@.wf() {
                lemma_set_keeps_wf(old(self)@, entity_id, hex);
            }
        }
    }

    /// Takes the position of `entity_id` away.
    pub fn del(&mut self, entity_id: EntityId)
        ensures
            final(self)@ == old(self)@.del(entity_id),
            old(self)@.wf() ==> final(self)@.wf(),
    {
        self.vacate(entity_id);
        self.components.del(entity_id);
        proof {
            if old(self)@.wf() {
                lemma_del_keeps_wf(old(self)@, entity_id);
            }
        }
    }
}

/// What is left of a list of occupants holds every occupant but the one
/// withdrawn, and no occupant twice if the list did not.
pub proof fn lemma_without(occupants: Seq<EntityId>, entity_id: EntityId)
    ensures
        forall|other: EntityId|
            spec_without(occupants, entity_id).contains(other) <==> (other != entity_id
                && occupants.contains(other)),
        occupants.no_duplicates() ==> spec_without(occupants, entity_id).no_duplicates(),
        !occupants.contains(entity_id) ==> spec_without(occupants, entity_id) == occupants,
    decreases occupants.len(),
{
    if occupants.len() > 0 {
        let front = occupants.drop_last();
        let last = occupants.last();
        let rest = spec_without(front, entity_id);
        lemma_without(front, entity_id);
        lemma_drop_last_contains(occupants);
        if occupants.no_duplicates() {
            lemma_drop_last_no_duplicates(occupants);
        }
        if last != entity_id {
            lemma_push_contains(rest, last);
            if occupants.no_duplicates() {
                lemma_push_no_duplicates(rest, last);
            }
            if !occupants.contains(entity_id) {
                assert(rest.push(last) =~= occupants);
            }
        }
    }
}

/// Taking a position away keeps the two directions of the index in
/// agreement.
pub proof fn lemma_del_keeps_wf(positions: PositionsView, entity_id: EntityId)
    requires
        positions.wf(),
    ensures
        positions.del(entity_id).wf(),
{
    let after = positions.del(entity_id);
    if positions.by_id.contains_key(entity_id) {
        let home = positions.by_id[entity_id];
        assert(positions.at(home).contains(entity_id));
        lemma_without(positions.by_hex[home], entity_id);
        assert forall|other: EntityId| #[trigger]
            after.by_id.contains_key(other) implies after.at(after.by_id[other]).contains(
            other,
        ) by {
            assert(positions.by_id.contains_key(other));
            assert(positions.at(positions.by_id[other]).contains(other));
        }
        assert forall|hex: Hex, other: EntityId| #[trigger]
            after.at(hex).contains(other) implies after.by_id.contains_key(other)
            && after.by_id[other] == hex by {
            assert(positions.at(hex).contains(other));
        }
        assert forall|hex: Hex| #[trigger] after.at(hex).no_duplicates() by {
            assert(positions.at(hex).no_duplicates());
        }
    } else {
        assert(after.by_id =~= positions.by_id);
    }
}

/// Putting an entity at a cell keeps the two directions of the index in
/// agreement.
pub proof fn lemma_set_keeps_wf(positions: PositionsView, entity_id: EntityId, hex: Hex)
    requires
        positions.wf(),
    ensures
        positions.set(entity_id, hex).wf(),
{
    let gone = positions.del(entity_id);
    lemma_del_keeps_wf(positions, entity_id);
    let after = positions.set(entity_id, hex);
    let occupants = after.by_hex[hex];
    assert(occupants =~= gone.at(hex).push(entity_id));
    assert(!gone.at(hex).contains(entity_id)) by {
        if gone.at(hex).contains(entity_id) {
            assert(gone.by_id.contains_key(entity_id));
        }
    }
    lemma_push_contains(gone.at(hex), entity_id);
    assert(gone.at(hex).no_duplicates());
    lemma_push_no_duplicates(gone.at(hex), entity_id);
    assert forall|other: EntityId| #[trigger]
        after.by_id.contains_key(other) implies after.at(after.by_id[other]).contains(other) by {
        if other != entity_id {
            assert(gone.by_id.contains_key(other));
            assert(gone.at(gone.by_id[other]).contains(other));
        }
    }
    assert forall|cell: Hex, other: EntityId| #[trigger]
        after.at(cell).contains(other) implies after.by_id.contains_key(other)
        && after.by_id[other] == cell by {
        if cell != hex || other != entity_id {
            assert(gone.at(cell).contains(other));
        }
    }
    assert forall|cell: Hex| #[trigger] after.at(cell).no_duplicates() by {
        assert(gone.at(cell).no_duplicates());
    }
}

/// Whatever is written to an index that began empty, in whatever order, its
/// two directions agree: an entity is among the occupants of a cell exactly
/// if the cell is its position.
pub proof fn lemma_writes_keep_wf(writes: Seq<PositionWrite>)
    ensures
        PositionsView::empty().write_all(writes).wf(),
        forall|hex: Hex, entity_id: EntityId|
            PositionsView::empty().write_all(writes).at(hex).contains(entity_id) <==> (
            PositionsView::empty().write_all(writes).by_id.contains_key(entity_id)
                && PositionsView::empty().write_all(writes).by_id[entity_id] == hex),
    decreases writes.len(),
{
    let start = PositionsView::empty();
    if writes.len() > 0 {
        lemma_writes_keep_wf(writes.drop_last());
        let before = start.write_all(writes.drop_last());
        match writes.last() {
            PositionWrite::Put(entity_id, hex) => lemma_set_keeps_wf(before, entity_id, hex),
            PositionWrite::Take(entity_id) => lemma_del_keeps_wf(before, entity_id),
        }
    }
    let end = start.write_all(writes);
    assert forall|hex: Hex, entity_id: EntityId|
        end.at(hex).contains(entity_id) <==> (end.by_id.contains_key(entity_id)
            && end.by_id[entity_id] == hex) by {
        if end.by_id.contains_key(entity_id) && end.by_id[entity_id] == hex {
            assert(end.at(end.by_id[entity_id]).contains(entity_id));
        }
    }
}

} // verus!
