//! Laws of the background workers' generations.

use crate::workers::{
    latest_arrival, next_generation, preview_arrival, LatestRequest, PreviewGenerations,
};
use vstd::prelude::*;

verus! {

/// The preview never goes back: the generation on screen never decreases,
/// and of two frames shown one after the other the later one is newer.
pub proof fn law_preview_never_goes_back(state: PreviewGenerations, first: u64, second: u64)
    ensures
        preview_arrival(state, first).1.shown >= state.shown,
        ({
            let (shown_first, middle) = preview_arrival(state, first);
            let (shown_second, _) = preview_arrival(middle, second);
            shown_first && shown_second ==> first < second
        }),
{
}

/// Once a new preview request is out, the frame answering it is shown and
/// ends the wait, as long as it is newer than the frame on screen (the
/// generations have not wrapped around).
pub proof fn law_newest_preview_ends_the_wait(state: PreviewGenerations)
    requires
        state.shown < next_generation(state.requested),
    ensures
        ({
            let generation = next_generation(state.requested);
            let waiting = PreviewGenerations { requested: generation, pending: true, ..state };
            preview_arrival(waiting, generation) == (
                true,
                PreviewGenerations { requested: generation, shown: generation, pending: false },
            )
        }),
{
}

/// A preview frame older than one already shown never changes anything.
pub proof fn law_stale_preview_is_ignored(state: PreviewGenerations, generation: u64)
    requires
        generation <= state.shown,
    ensures
        preview_arrival(state, generation) == (false, state),
{
}

/// After a new request, only its own result is taken: a result of any other
/// generation (an earlier, superseded request) changes nothing, and the
/// answer to the new request ends the wait.
pub proof fn law_superseded_results_are_ignored(state: LatestRequest, generation: u64)
    ensures
        ({
            let current = next_generation(state.generation);
            let waiting = LatestRequest { generation: current, pending: true };
            &&& generation != current ==> latest_arrival(waiting, generation) == (false, waiting)
            &&& latest_arrival(waiting, current) == (
                true,
                LatestRequest { generation: current, pending: false },
            )
        }),
{
}

} // verus!
