//! Snapshots of the tracked state, kept per frame for as long as a rollback
//! may still reach them.
use vstd::prelude::*;
use crate::world::{World, WorldView};

verus! {

/// The tracked state as it stood at `frame`.
pub struct Snapshot {
    pub frame: u64,
    pub world: World,
}

/// A ring of snapshots: frame `f` is kept in slot `f % capacity`, so saving a
/// frame evicts the one `capacity` frames older.
pub struct FrameStateStore {
    pub slots: Vec<Option<Snapshot>>,
}

impl FrameStateStore {
    pub open spec fn capacity(&self) -> nat {
        self.slots@.len()
    }

    pub open spec fn slot_of(&self, frame: u64) -> int {
        (frame as int) % (self.slots@.len() as int)
    }

    /// The snapshot saved for `frame`, if it is still kept.
    pub open spec fn saved(&self, frame: u64) -> Option<WorldView> {
        match self.slots@[self.slot_of(frame)] {
            Some(s) => if s.frame == frame {
                Some(s.world@)
            } else {
                None
            },
            None => None,
        }
    }

    pub open spec fn wf(&self) -> bool {
        self.slots@.len() > 0
    }

    /// An empty store that keeps the last `capacity` frames.
    pub fn new(capacity: usize) -> (r: FrameStateStore)
        requires
            capacity > 0,
        ensures
            r.wf(),
            r.capacity() == capacity,
            forall|f: u64| (#[trigger] r.saved(f)) is None,
    {
        let mut slots: Vec<Option<Snapshot>> = Vec::new();
        let mut i: usize = 0;
        while i < capacity
            invariant
                0 <= i <= capacity,
                slots@.len() == i,
                forall|j: int| 0 <= j < i ==> slots@[j] is None,
            decreases capacity - i,
        {
            slots.push(None);
            i = i + 1;
        }
        FrameStateStore { slots }
    }

    /// Whether the snapshot for `frame` is still kept.
    pub fn contains(&self, frame: u64) -> (r: bool)
        requires
            self.wf(),
        ensures
            r == self.saved(frame) is Some,
    {
        let i = (frame % (self.slots.len() as u64)) as usize;
        match &self.slots[i] {
            Some(s) => s.frame == frame,
            None => false,
        }
    }

    /// Captures `world` as the state of `frame`. The snapshot of the frame
    /// that shares its slot, `capacity` frames apart, is evicted.
    pub fn save(&mut self, frame: u64, world: &World)
        requires
            old(self).wf(),
        ensures
            final(self).wf(),
            final(self).capacity() == old(self).capacity(),
            final(self).saved(frame) == Some(world@),
            forall|g: u64|
                g != frame ==> #[trigger] final(self).saved(g) == if old(self).slot_of(g)
                    == old(self).slot_of(frame) {
                    None
                } else {
                    old(self).saved(g)
                },
    {
        let i = (frame % (self.slots.len() as u64)) as usize;
        let snap = Snapshot { frame, world: world.duplicate() };
        self.slots.set(i, Some(snap));
    }

    /// The state captured for `frame`. Asking for a frame that was never
    /// saved, or was evicted, is a caller's error.
    pub fn restore(&self, frame: u64) -> (r: World)
        requires
            self.wf(),
            self.saved(frame) is Some,
        ensures
            r@ == self.saved(frame)->Some_0,
    {
        let i = (frame % (self.slots.len() as u64)) as usize;
        match &self.slots[i] {
            Some(s) => s.world.duplicate(),
            None => {
                proof {
                    assert(false);
                }
                World::new(0)
            },
        }
    }
}

/// Restoring a snapshot does not consume or alter it: two restores of the
/// same frame in a row give the same state.
pub proof fn lemma_restore_idempotent(store: FrameStateStore, frame: u64, first: WorldView, second: WorldView)
    requires
        store.wf(),
        store.saved(frame) == Some(first),
        store.saved(frame) == Some(second),
    ensures
        first == second,
{
}

} // verus!
