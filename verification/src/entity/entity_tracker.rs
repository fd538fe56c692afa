//! Issues entity identifiers and takes them back for later reuse.

use vstd::prelude::*;
use std::collections::VecDeque;
use super::entity_id::EntityId;
use super::entity_id::index_of_entity_id;
use super::entity_id::new_entity_id;
use crate::seqs::lemma_drop_first_contains;
use crate::seqs::lemma_drop_first_no_duplicates;
use crate::seqs::lemma_push_contains;
use crate::seqs::lemma_push_no_duplicates;

verus! {

/// One more than the largest index that is ever issued.
pub const ENTITY_MAX: usize = 8192;

/// How many released indices must wait before the oldest is issued again.
pub const REUSE_SIZE: usize = 100;

/// The registry has issued every index below `ENTITY_MAX` and too few have
/// been released to reuse one.
#[derive(Copy, Clone, Debug, PartialEq, Eq, Structural)]
pub struct OutOfCapacity;

/// Issues identifiers: fresh ones in rising order, released ones again once
/// enough of them wait.
pub struct EntityTracker {
    next_index: u16,
    unused_indices: VecDeque<u16>,
}

/// What a registry knows: the next index never issued so far, and the
/// released indices in the order of their release.
pub struct EntityTrackerView {
    pub next_index: nat,
    pub unused: Seq<u16>,
}

impl EntityTrackerView {
    /// No index waits twice, and only issued indices wait.
    pub open spec fn wf(self) -> bool {
        &&& self.next_index <= ENTITY_MAX
        &&& self.unused.no_duplicates()
        &&& forall|i: int| 0 <= i < self.unused.len() ==> self.unused[i] < self.next_index
    }

    /// Whether an identifier has been issued and not released since.
    pub open spec fn is_live(self, entity_id: EntityId) -> bool {
        entity_id.index < self.next_index && !self.unused.contains(entity_id.index)
    }

    /// Whether the next identifier comes from the waiting ones.
    pub open spec fn reuses(self) -> bool {
        self.unused.len() > REUSE_SIZE
    }

    /// The identifier that `create` issues next, or why it issues none.
    pub open spec fn issued(self) -> Result<EntityId, OutOfCapacity> {
        if self.reuses() {
            Ok(EntityId { index: self.unused[0] })
        } else if self.next_index < ENTITY_MAX {
            Ok(EntityId { index: self.next_index as u16 })
        } else {
            Err(OutOfCapacity)
        }
    }

    /// The registry after `create`.
    pub open spec fn create(self) -> EntityTrackerView {
        if self.reuses() {
            EntityTrackerView { next_index: self.next_index, unused: self.unused.drop_first() }
        } else if self.next_index < ENTITY_MAX {
            EntityTrackerView { next_index: self.next_index + 1, unused: self.unused }
        } else {
            self
        }
    }

    /// The registry after the release of `entity_id`.
    pub open spec fn remove(self, entity_id: EntityId) -> EntityTrackerView {
        EntityTrackerView {
            next_index: self.next_index,
            unused: self.unused.push(entity_id.index),
        }
    }

    /// Every identifier issued so far, live or waiting, in rising order.
    pub open spec fn all(self) -> Seq<EntityId> {
        Seq::new(self.next_index, |i: int| EntityId { index: i as u16 })
    }

    /// The live identifiers among the first `count` issued, in rising order.
    pub open spec fn live_below(self, count: nat) -> Seq<EntityId>
        decreases count,
    {
        if count == 0 {
            Seq::empty()
        } else {
            let entity_id = EntityId { index: (count - 1) as u16 };
            if self.is_live(entity_id) {
                self.live_below((count - 1) as nat).push(entity_id)
            } else {
                self.live_below((count - 1) as nat)
            }
        }
    }

    /// The live identifiers, in rising order.
    pub open spec fn live(self) -> Seq<EntityId> {
        self.live_below(self.next_index)
    }
}

impl View for EntityTracker {
    type V = EntityTrackerView;

    closed spec fn view(&self) -> EntityTrackerView {
        EntityTrackerView { next_index: self.next_index as nat, unused: self.unused_indices@ }
    }
}

impl EntityTracker {
    pub fn new() -> (tracker: EntityTracker)
        ensures
            tracker@ == (EntityTrackerView { next_index: 0, unused: Seq::empty() }),
            tracker@.wf(),
    {
        EntityTracker { next_index: 0, unused_indices: VecDeque::new() }
    }

    /// Issues an identifier: the one released longest ago once more than
    /// `REUSE_SIZE` wait, else the next index never issued; none once those
    /// have run out.
    pub fn create(&mut self) -> (result: Result<EntityId, OutOfCapacity>)
        ensures
            result == old(self)@.issued(),
            final(self)@ == old(self)@.create(),
            old(self)@.wf() ==> final(self)@.wf(),
            old(self)@.wf() ==> match result {
                Ok(entity_id) => !old(self)@.is_live(entity_id) && final(self)@.is_live(entity_id),
                Err(_) => true,
            },
    {
        proof {
            if self@.wf() {
                lemma_create_issues_fresh(self@);
            }
        }
        if self.unused_indices.len() > REUSE_SIZE {
            match self.unused_indices.pop_front() {
                Some(index) => Ok(new_entity_id(index)),
                None => Err(OutOfCapacity),
            }
        } else if (self.next_index as usize) < ENTITY_MAX {
            let index: u16 = self.next_index;
            self.next_index = self.next_index + 1;
            Ok(new_entity_id(index))
        } else {
            Err(OutOfCapacity)
        }
    }

    /// Releases an identifier: it waits at the end of the queue.
    pub fn remove(&mut self, entity_id: EntityId)
        ensures
            final(self)@ == old(self)@.remove(entity_id),
            old(self)@.wf() && old(self)@.is_live(entity_id) ==> final(self)@.wf(),
            old(self)@.wf() && old(self)@.is_live(entity_id) ==> !final(self)@.is_live(entity_id),
    {
        proof {
            if self@.wf() && self@.is_live(entity_id) {
                lemma_remove_releases(self@, entity_id);
            }
        }
        self.unused_indices.push_back(index_of_entity_id(entity_id));
    }

    /// Whether an identifier has been issued and not released since.
    pub fn is_live(&self, entity_id: EntityId) -> (live: bool)
        ensures
            live == self@.is_live(entity_id),
    {
        if entity_id.index >= self.next_index {
            return false;
        }
        let mut i: usize = 0;
        while i < self.unused_indices.len()
            invariant
                i <= self.unused_indices@.len(),
                forall|k: int| 0 <= k < i ==> self.unused_indices@[k] != entity_id.index,
            decreases self.unused_indices@.len() - i,
        {
            if self.unused_indices[i] == entity_id.index {
                return false;
            }
            i = i + 1;
        }
        true
    }

    /// The live identifiers, in rising order.
    pub fn live(&self) -> (ids: Vec<EntityId>)
        ensures
            ids@ == self@.live(),
    {
        let mut ids: Vec<EntityId> = Vec::new();
        let mut index: u16 = 0;
        while index < self.next_index
            invariant
                index <= self.next_index,
                ids@ == self@.live_below(index as nat),
            decreases self.next_index - index,
        {
            let entity_id: EntityId = new_entity_id(index);
            if self.is_live(entity_id) {
                ids.push(entity_id);
            }
            index = index + 1;
        }
        ids
    }

    /// Every identifier issued so far, in rising order.
    pub fn all(&self) -> (ids: Vec<EntityId>)
        ensures
            ids@ == self@.all(),
    {
        let mut ids: Vec<EntityId> = Vec::new();
        let mut index: u16 = 0;
        while index < self.next_index
            invariant
                index <= self.next_index,
                ids@.len() == index,
                forall|i: int| 0 <= i < index ==> ids@[i] == (EntityId { index: i as u16 }),
            decreases self.next_index - index,
        {
            ids.push(new_entity_id(index));
            index = index + 1;
        }
        assert(ids@ =~= self@.all());
        ids
    }
}

/// An identifier that a well-formed registry issues was not live before and
/// is live after; every other identifier is live after exactly if it was
/// before. So no two live entities share an identifier.
pub proof fn lemma_create_issues_fresh(tracker: EntityTrackerView)
    requires
        tracker.wf(),
    ensures
        tracker.create().wf(),
        match tracker.issued() {
            Ok(entity_id) => {
                &&& !tracker.is_live(entity_id)
                &&& tracker.create().is_live(entity_id)
                &&& forall|other: EntityId|
                    other != entity_id ==> (tracker.create().is_live(other) <==> tracker.is_live(
                        other,
                    ))
            },
            Err(_) => tracker.create() == tracker,
        },
{
    if tracker.reuses() {
        lemma_drop_first_contains(tracker.unused);
        lemma_drop_first_no_duplicates(tracker.unused);
        let rest = tracker.unused.drop_first();
        assert forall|i: int| 0 <= i < rest.len() implies rest[i] < tracker.next_index by {
            assert(rest[i] == tracker.unused[i + 1]);
        }
    } else if tracker.next_index < ENTITY_MAX {
        let fresh = tracker.next_index as u16;
        if tracker.unused.contains(fresh) {
            let i = choose|i: int| 0 <= i < tracker.unused.len() && tracker.unused[i] == fresh;
            assert(tracker.unused[i] < tracker.next_index);
        }
    }
}

/// Releasing a live identifier of a well-formed registry ends its life and
/// no other.
pub proof fn lemma_remove_releases(tracker: EntityTrackerView, entity_id: EntityId)
    requires
        tracker.wf(),
        tracker.is_live(entity_id),
    ensures
        tracker.remove(entity_id).wf(),
        !tracker.remove(entity_id).is_live(entity_id),
        forall|other: EntityId|
            other != entity_id ==> (tracker.remove(entity_id).is_live(other) <==> tracker.is_live(
                other,
            )),
{
    lemma_push_contains(tracker.unused, entity_id.index);
    lemma_push_no_duplicates(tracker.unused, entity_id.index);
}

/// The list of live identifiers holds exactly the identifiers that are
/// live.
pub proof fn lemma_live(tracker: EntityTrackerView, entity_id: EntityId)
    requires
        tracker.next_index <= ENTITY_MAX,
    ensures
        tracker.live().contains(entity_id) <==> tracker.is_live(entity_id),
{
    lemma_live_below(tracker, tracker.next_index, entity_id);
}

/// The list of the live identifiers among the first `count` holds exactly
/// those of them that are live.
proof fn lemma_live_below(tracker: EntityTrackerView, count: nat, entity_id: EntityId)
    requires
        count <= tracker.next_index <= ENTITY_MAX,
    ensures
        tracker.live_below(count).contains(entity_id) <==> (entity_id.index < count
            && tracker.is_live(entity_id)),
    decreases count,
{
    if count > 0 {
        lemma_live_below(tracker, (count - 1) as nat, entity_id);
        lemma_push_contains(
            tracker.live_below((count - 1) as nat),
            EntityId { index: (count - 1) as u16 },
        );
    }
}

} // verus!
