//! Which results of the editor's background workers are taken: each request
//! carries a generation number, and a result answers the request of its
//! generation.

use vstd::prelude::*;

verus! {

/// The generation after `generation`, wrapping around at the top.
pub open spec fn next_generation(generation: u64) -> u64 {
    if generation == u64::MAX {
        0
    } else {
        (generation + 1) as u64
    }
}

fn following(generation: u64) -> (r: u64)
    ensures
        r == next_generation(generation),
{
    generation.wrapping_add(1)
}

/// Preview frames: the newest request, the newest frame shown, and whether
/// the newest request is still being rendered. A frame is shown whenever
/// it is newer than the one on screen, even if newer requests are still in
/// flight, so that slow renders still show progress during playback.
#[derive(Clone, Copy, Debug, PartialEq, Eq, Structural)]
pub struct PreviewGenerations {
    pub requested: u64,
    pub shown: u64,
    pub pending: bool,
}

/// A preview frame of `generation` arriving: whether it is shown, and the
/// state afterwards.
pub open spec fn preview_arrival(state: PreviewGenerations, generation: u64) -> (bool, PreviewGenerations) {
    if generation > state.shown {
        (
            true,
            PreviewGenerations {
                shown: generation,
                pending: state.pending && generation != state.requested,
                ..state
            },
        )
    } else {
        (false, state)
    }
}

impl PreviewGenerations {
    pub fn new() -> (r: Self)
        ensures
            r == (PreviewGenerations { requested: 0, shown: 0, pending: false }),
    {
        PreviewGenerations { requested: 0, shown: 0, pending: false }
    }

    /// Starts a new request; returns its generation.
    pub fn begin(&mut self) -> (r: u64)
        ensures
            r == next_generation(old(self).requested),
            *final(self) == (PreviewGenerations { requested: r, ..*old(self) }),
    {
        self.requested = following(self.requested);
        self.requested
    }

    /// Records whether the request just begun went out: the preview is
    /// pending exactly when it did.
    pub fn sent(&mut self, ok: bool)
        ensures
            *final(self) == (PreviewGenerations { pending: ok, ..*old(self) }),
    {
        self.pending = ok;
    }

    /// A frame of `generation` arrived: it is shown when it is newer than
    /// the frame on screen, and the preview stops pending when it answers
    /// the newest request. Returns whether it is shown.
    pub fn arrived(&mut self, generation: u64) -> (r: bool)
        ensures
            (r, *final(self)) == preview_arrival(*old(self), generation),
    {
        if generation <= self.shown {
            return false;
        }
        self.shown = generation;
        if generation == self.requested {
            self.pending = false;
        }
        true
    }

    /// The worker went away: returns whether a request was still pending
    /// (which is then reported as an error); nothing is pending afterwards.
    pub fn disconnected(&mut self) -> (r: bool)
        ensures
            r == old(self).pending,
            *final(self) == (PreviewGenerations { pending: false, ..*old(self) }),
    {
        let was = self.pending;
        self.pending = false;
        was
    }
}

/// A worker whose results only count when they answer the newest request
/// (media probes, component schemas, audio mixes).
#[derive(Clone, Copy, Debug, PartialEq, Eq, Structural)]
pub struct LatestRequest {
    pub generation: u64,
    pub pending: bool,
}

/// A result of `generation` arriving: whether it is taken, and the state
/// afterwards.
pub open spec fn latest_arrival(state: LatestRequest, generation: u64) -> (bool, LatestRequest) {
    if generation == state.generation {
        (true, LatestRequest { pending: false, ..state })
    } else {
        (false, state)
    }
}

impl LatestRequest {
    pub fn new() -> (r: Self)
        ensures
            r == (LatestRequest { generation: 0, pending: false }),
    {
        LatestRequest { generation: 0, pending: false }
    }

    /// Starts a new request, superseding any in flight; returns its
    /// generation. Nothing is pending until it is sent.
    pub fn begin(&mut self) -> (r: u64)
        ensures
            r == next_generation(old(self).generation),
            *final(self) == (LatestRequest { generation: r, pending: false }),
    {
        self.generation = following(self.generation);
        self.pending = false;
        self.generation
    }

    /// Records whether the request went out.
    pub fn sent(&mut self, ok: bool)
        ensures
            *final(self) == (LatestRequest { pending: ok, ..*old(self) }),
    {
        self.pending = ok;
    }

    /// A result of `generation` arrived: taken only when it answers the
    /// newest request, which is then no longer pending.
    pub fn arrived(&mut self, generation: u64) -> (r: bool)
        ensures
            (r, *final(self)) == latest_arrival(*old(self), generation),
    {
        if generation != self.generation {
            return false;
        }
        self.pending = false;
        true
    }

    /// The worker went away: returns whether a request was still pending.
    pub fn disconnected(&mut self) -> (r: bool)
        ensures
            r == old(self).pending,
            *final(self) == (LatestRequest { pending: false, ..*old(self) }),
    {
        let was = self.pending;
        self.pending = false;
        was
    }
}

} // verus!
