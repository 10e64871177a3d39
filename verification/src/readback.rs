//! The pool of readback slots that keeps a few rendered frames in flight on
//! the GPU: which slots are free, which are in flight (oldest first), and
//! when the oldest must be waited for before another frame is submitted.

use std::collections::VecDeque;
use vstd::prelude::*;

verus! {

/// How many frames may be in flight before `submit` waits for the oldest.
pub const PIPELINE_DEPTH: usize = 3;

/// The slot a submitted frame renders into.
#[derive(Clone, Copy, Debug, PartialEq, Eq, Structural)]
pub enum SlotChoice {
    /// A free slot, to be reused (or recreated when its size or format
    /// differs).
    Reuse(usize),
    /// A new slot, appended to the slots.
    Create(usize),
}

/// Slot indices `0..slots`; each is free, in flight, or held by a frame
/// being prepared.
pub struct ReadbackPool {
    slots: usize,
    free: Vec<usize>,
    order: VecDeque<usize>,
}

/// The mathematical state of a pool.
pub struct PoolModel {
    pub slots: nat,
    pub free: Seq<usize>,
    pub in_flight: Seq<usize>,
}

/// No index is listed twice among the free and in-flight slots, and each
/// names a slot.
pub open spec fn pool_wf(m: PoolModel) -> bool {
    let listed = m.free + m.in_flight;
    &&& listed.no_duplicates()
    &&& forall|k: int| 0 <= k < listed.len() ==> (#[trigger] listed[k]) < m.slots
    &&& m.slots <= usize::MAX
}

/// The pool once its oldest in-flight slot is reclaimed.
pub open spec fn reclaimed(m: PoolModel) -> PoolModel {
    PoolModel { free: m.free.push(m.in_flight[0]), in_flight: m.in_flight.drop_first(), ..m }
}

/// The slot the next frame gets.
pub open spec fn acquired_slot(m: PoolModel) -> SlotChoice {
    if m.free.len() > 0 {
        SlotChoice::Reuse(m.free.last())
    } else {
        SlotChoice::Create(m.slots as usize)
    }
}

/// The pool once the next frame's slot is taken.
pub open spec fn acquired(m: PoolModel) -> PoolModel {
    if m.free.len() > 0 {
        PoolModel { free: m.free.drop_last(), ..m }
    } else {
        PoolModel { slots: m.slots + 1, ..m }
    }
}

/// The pool once the frame in `slot` is submitted.
pub open spec fn with_submitted(m: PoolModel, slot: usize) -> PoolModel {
    PoolModel { in_flight: m.in_flight.push(slot), ..m }
}

impl ReadbackPool {
    pub closed spec fn model(&self) -> PoolModel {
        PoolModel { slots: self.slots as nat, free: self.free@, in_flight: self.order@ }
    }

    /// An empty pool.
    pub fn new() -> (p: Self)
        ensures
            p.model() == (PoolModel { slots: 0, free: Seq::empty(), in_flight: Seq::empty() }),
            pool_wf(p.model()),
    {
        let p = ReadbackPool { slots: 0, free: Vec::new(), order: VecDeque::new() };
        assert(p.model().free + p.model().in_flight =~= Seq::<usize>::empty());
        p
    }

    /// How many frames are in flight.
    pub fn in_flight(&self) -> (n: usize)
        ensures
            n == self.model().in_flight.len(),
    {
        self.order.len()
    }

    /// Whether the oldest frame must be waited for before another is
    /// submitted: no slot is free and the pipeline is full.
    pub fn needs_reclaim(&self) -> (b: bool)
        ensures
            b == (self.model().free.len() == 0 && self.model().in_flight.len() >= PIPELINE_DEPTH),
    {
        self.free.len() == 0 && self.order.len() >= PIPELINE_DEPTH
    }

    /// Takes the oldest in-flight slot, whose frame the caller then reads
    /// back, and frees it.
    pub fn reclaim_oldest(&mut self) -> (slot: usize)
        requires
            old(self).model().in_flight.len() > 0,
        ensures
            slot == old(self).model().in_flight[0],
            final(self).model() == reclaimed(old(self).model()),
            pool_wf(old(self).model()) ==> pool_wf(final(self).model()),
    {
        let ghost before = self.model();
        let slot = match self.order.pop_front() {
            Some(slot) => slot,
            None => 0,
        };
        self.free.push(slot);
        proof {
            let after = self.model().free + self.model().in_flight;
            assert(after =~= before.free + before.in_flight);
        }
        slot
    }

    /// The slot for the next frame: the last freed one, or a new one when
    /// none is free. The slot is held until [`Self::submitted`].
    pub fn acquire(&mut self) -> (choice: SlotChoice)
        requires
            pool_wf(old(self).model()),
            old(self).model().free.len() > 0 || old(self).model().slots < usize::MAX,
        ensures
            pool_wf(final(self).model()),
            choice == acquired_slot(old(self).model()),
            final(self).model() == acquired(old(self).model()),
    {
        let ghost before = self.model();
        match self.free.pop() {
            Some(slot) => {
                proof {
                    let listed = before.free + before.in_flight;
                    let after = self.model().free + self.model().in_flight;
                    assert(after =~= listed.remove(before.free.len() - 1));
                    assert forall|a: int, b: int| 0 <= a < b < after.len() implies after[a]
                        != after[b] by {
                        let pa = if a < before.free.len() - 1 {
                            a
                        } else {
                            a + 1
                        };
                        let pb = if b < before.free.len() - 1 {
                            b
                        } else {
                            b + 1
                        };
                        assert(after[a] == listed[pa]);
                        assert(after[b] == listed[pb]);
                    }
                    assert forall|k: int| 0 <= k < after.len() implies (#[trigger] after[k])
                        < self.model().slots by {
                        if k < before.free.len() - 1 {
                            assert(after[k] == listed[k]);
                        } else {
                            assert(after[k] == listed[k + 1]);
                        }
                    }
                }
                SlotChoice::Reuse(slot)
            },
            None => {
                let slot = self.slots;
                self.slots = self.slots + 1;
                proof {
                    let after = self.model().free + self.model().in_flight;
                    assert(after =~= before.free + before.in_flight);
                }
                SlotChoice::Create(slot)
            },
        }
    }

    /// Records that the frame in `slot` was submitted: it is now the newest
    /// in flight.
    pub fn submitted(&mut self, slot: usize)
        requires
            pool_wf(old(self).model()),
            slot < old(self).model().slots,
            !(old(self).model().free + old(self).model().in_flight).contains(slot),
        ensures
            pool_wf(final(self).model()),
            final(self).model() == with_submitted(old(self).model(), slot),
    {
        let ghost before = self.model();
        self.order.push_back(slot);
        proof {
            let listed = before.free + before.in_flight;
            let after = self.model().free + self.model().in_flight;
            assert(after =~= listed.push(slot));
            assert forall|a: int, b: int| 0 <= a < b < after.len() implies after[a] != after[b] by {
                if b == listed.len() {
                    assert(after[a] == listed[a]);
                    assert(listed.contains(after[a]));
                } else {
                    assert(after[a] == listed[a] && after[b] == listed[b]);
                }
            }
            assert forall|k: int| 0 <= k < after.len() implies (#[trigger] after[k])
                < self.model().slots by {
                if k < listed.len() {
                    assert(after[k] == listed[k]);
                }
            }
        }
    }
}

/// One frame submitted by the protocol: the oldest frame is reclaimed
/// first when nothing is free and the pipeline is full, then a slot is
/// taken and the frame submitted in it.
pub open spec fn submit_step(m: PoolModel) -> PoolModel {
    let ready = if m.free.len() == 0 && m.in_flight.len() >= PIPELINE_DEPTH {
        reclaimed(m)
    } else {
        m
    };
    let slot = match acquired_slot(ready) {
        SlotChoice::Reuse(i) => i,
        SlotChoice::Create(i) => i,
    };
    with_submitted(acquired(ready), slot)
}

/// Every slot is free or in flight.
pub open spec fn all_accounted(m: PoolModel) -> bool {
    m.free.len() + m.in_flight.len() == m.slots
}

/// Frames submitted through the protocol never need more than
/// [`PIPELINE_DEPTH`] slots: starting from a pool whose slots are all free
/// or in flight, a submission keeps them so and keeps their number within
/// the depth.
pub proof fn law_pipeline_stays_bounded(m: PoolModel)
    requires
        all_accounted(m),
        m.slots <= PIPELINE_DEPTH,
    ensures
        all_accounted(submit_step(m)),
        submit_step(m).slots <= PIPELINE_DEPTH,
        submit_step(m).in_flight.len() <= PIPELINE_DEPTH,
{
}

/// Frames come back in the order they were submitted: after frames in
/// slots `a` and then `b` are submitted to a pool with nothing in flight,
/// the first reclaim returns `a` and the next `b`.
pub proof fn law_frames_return_in_order(m: PoolModel, a: usize, b: usize)
    requires
        m.in_flight.len() == 0,
    ensures
        ({
            let sent = with_submitted(with_submitted(m, a), b);
            &&& sent.in_flight[0] == a
            &&& reclaimed(sent).in_flight[0] == b
            &&& reclaimed(reclaimed(sent)).in_flight.len() == 0
        }),
{
}

} // verus!
