//! Playback supersession decisions.
//!
//! Speech requests share one playback class: starting one supersedes the
//! sound currently playing, and the stop command supersedes without a
//! replacement. A pre-fetch request only warms the cache; it mints no
//! generation and must never reach a playback loop, so it runs ungated.

use crate::generation::Gate;
use crate::generation::GenerationCounter;
use vstd::prelude::*;

verus! {

/// The decisions a speech request settles before any fetch or playback.
pub struct SpeakPlan {
    /// Nothing to do at all: a pre-fetch that was asked to bypass the
    /// cache would fetch for nobody.
    pub skip_entirely: bool,
    /// How the playback loop of this request is gated.
    pub gate: Gate,
    /// Whether fetched audio is played: a pre-fetch only warms the cache.
    pub play_after_fetch: bool,
}

/// Settle a speech request's plan. An ordinary request supersedes the
/// current playback by minting the next generation; a pre-fetch leaves the
/// counter alone and runs ungated.
pub fn plan_speak(counter: &mut GenerationCounter, pre_fetch: bool, no_cache: bool) -> (plan:
    SpeakPlan)
    requires
        old(counter).current() < u64::MAX,
    ensures
        plan.skip_entirely == (no_cache && pre_fetch),
        plan.play_after_fetch == !pre_fetch,
        pre_fetch ==> plan.gate is Ungated && final(counter).current() == old(counter).current(),
        !pre_fetch ==> plan.gate == Gate::Token(
            (old(counter).current() + 1) as u64,
        ) && final(counter).current() == old(counter).current() + 1,
{
    if no_cache && pre_fetch {
        return SpeakPlan { skip_entirely: true, gate: Gate::Ungated, play_after_fetch: false };
    }
    let gate = if pre_fetch {
        Gate::Ungated
    } else {
        Gate::Token(counter.begin())
    };
    SpeakPlan { skip_entirely: false, gate, play_after_fetch: !pre_fetch }
}

/// The playback loop's continue test, polled between sleeps: keep playing
/// while the sink reports more to play and the request still holds
/// authority. Losing authority is a normal exit, not an error; two sounds
/// may overlap for up to one polling interval.
pub fn continue_playback(more_to_play: bool, gate: &Gate, counter: &GenerationCounter) -> (r:
    bool)
    ensures
        r == (more_to_play && gate.passes_spec(*counter)),
{
    more_to_play && gate.passes(counter)
}

} // verus!
