use celesta::readback::{ReadbackPool, SlotChoice, PIPELINE_DEPTH};

fn slot_of(choice: SlotChoice) -> usize {
    match choice {
        SlotChoice::Reuse(slot) | SlotChoice::Create(slot) => slot,
    }
}

/// Submits one frame the way the renderer does; returns the slot whose
/// frame had to be read back first, if any, and the slot the frame got.
fn submit(pool: &mut ReadbackPool) -> (Option<usize>, SlotChoice) {
    let ready = if pool.needs_reclaim() {
        Some(pool.reclaim_oldest())
    } else {
        None
    };
    let choice = pool.acquire();
    pool.submitted(slot_of(choice));
    (ready, choice)
}

#[test]
fn submit_and_drain_return_slots_in_submission_order() {
    let mut pool = ReadbackPool::new();
    assert_eq!(submit(&mut pool), (None, SlotChoice::Create(0)));
    assert_eq!(submit(&mut pool), (None, SlotChoice::Create(1)));
    assert_eq!(submit(&mut pool), (None, SlotChoice::Create(2)));
    assert_eq!(pool.in_flight(), PIPELINE_DEPTH);
    assert_eq!(submit(&mut pool), (Some(0), SlotChoice::Reuse(0)));
    assert_eq!(submit(&mut pool), (Some(1), SlotChoice::Reuse(1)));
    assert_eq!(pool.in_flight(), 3);

    let mut drained = Vec::new();
    while pool.in_flight() > 0 {
        drained.push(pool.reclaim_oldest());
    }
    assert_eq!(drained, [2, 0, 1]);
    assert!(!pool.needs_reclaim());
    assert_eq!(submit(&mut pool), (None, SlotChoice::Reuse(1)));
}

#[test]
fn a_free_slot_is_reused_before_the_pipeline_waits() {
    let mut pool = ReadbackPool::new();
    submit(&mut pool);
    assert_eq!(pool.reclaim_oldest(), 0);
    assert_eq!(submit(&mut pool), (None, SlotChoice::Reuse(0)));
    assert_eq!(submit(&mut pool), (None, SlotChoice::Create(1)));
}
