//! Generation-based supersession guard.
//!
//! Each resource class (audio playback, audio capture) has one monotonic
//! counter. Starting an operation mints a token equal to the new counter
//! value; the worker it launches polls `is_current` between I/O bursts and
//! releases its resources as soon as a newer generation exists. Stopping a
//! class advances the counter without minting a token, so the current worker
//! loses authority without a replacement starting. Staleness is
//! irreversible: the counter never moves backwards.

use vstd::prelude::*;

verus! {

/// Monotonic generation counter for one resource class.
pub struct GenerationCounter {
    current: u64,
}

impl GenerationCounter {
    /// The current generation. Tokens minted by `begin` are at least 1, so
    /// value 0 means no operation has ever started in this class.
    pub closed spec fn current(self) -> u64 {
        self.current
    }

    /// A token is authoritative exactly while it equals the live counter.
    pub open spec fn authoritative(self, token: u64) -> bool {
        token == self.current()
    }

    pub fn new() -> (c: GenerationCounter)
        ensures
            c.current() == 0,
    {
        GenerationCounter { current: 0 }
    }

    /// Start an operation: advance the counter and mint the token that the
    /// new worker will carry. The token is authoritative on return, and every
    /// previously minted token becomes stale.
    pub fn begin(&mut self) -> (token: u64)
        requires
            old(self).current() < u64::MAX,
        ensures
            final(self).current() == old(self).current() + 1,
            token == final(self).current(),
            final(self).authoritative(token),
            1 <= token,
    {
        self.current = self.current + 1;
        self.current
    }

    /// Stop the class: advance the counter without minting a usable token.
    /// The worker holding the previously current token loses authority and
    /// no replacement starts.
    pub fn force_stop(&mut self)
        requires
            old(self).current() < u64::MAX,
        ensures
            final(self).current() == old(self).current() + 1,
    {
        self.current = self.current + 1;
    }

    /// Read the live generation, without advancing anything.
    pub fn current_value(&self) -> (v: u64)
        ensures
            v == self.current(),
    {
        self.current
    }

    /// The staleness test a worker polls between I/O bursts. Losing it is
    /// not an error: the worker releases its resources and returns normally.
    pub fn is_current(&self, token: u64) -> (r: bool)
        ensures
            r == self.authoritative(token),
    {
        token == self.current
    }
}

/// One action applied to a class's counter, for reasoning about whole
/// command histories.
pub enum ClassAction {
    /// An operation start; it minted a token.
    Begin,
    /// A stop; the counter advanced but no token was minted.
    ForceStop,
}

/// The counter value after a history of actions: each action, of either
/// kind, advances the counter exactly once.
pub open spec fn counter_after(init: u64, actions: Seq<ClassAction>) -> int
    decreases actions.len(),
{
    if actions.len() == 0 {
        init as int
    } else {
        counter_after(init, actions.drop_last()) + 1
    }
}

/// The token minted by the action at index `i` of a history, if that action
/// was a `Begin`: one more than the counter it found.
pub open spec fn minted_token(init: u64, i: int) -> int {
    init + i + 1
}

/// Helper: the counter lands exactly one past each action.
proof fn lemma_counter_after_is_length(init: u64, actions: Seq<ClassAction>)
    ensures
        counter_after(init, actions) == init + actions.len(),
    decreases actions.len(),
{
    if actions.len() > 0 {
        lemma_counter_after_is_length(init, actions.drop_last());
    }
}

/// After any settled sequence of `begin`/`force_stop` actions on one class,
/// at most one minted token matches the live counter, and it is the token of
/// the last action if that action was a `begin`; if the last action was a
/// `force_stop`, no minted token matches.
pub proof fn lemma_settled_authority(init: u64, actions: Seq<ClassAction>)
    ensures
        forall|i: int|
            0 <= i < actions.len() && actions[i] is Begin ==> ((minted_token(init, i)
                == counter_after(init, actions)) <==> i == actions.len() - 1),
        actions.len() > 0 && actions.last() is ForceStop ==> forall|i: int|
            0 <= i < actions.len() && actions[i] is Begin ==> minted_token(init, i)
                != counter_after(init, actions),
{
    lemma_counter_after_is_length(init, actions);
}

/// Staleness is irreversible: the counter only grows, so a token it has
/// already passed never becomes current again, whatever actions follow.
pub proof fn lemma_staleness_irreversible(init: u64, actions: Seq<ClassAction>, token: u64)
    requires
        token < init,
    ensures
        counter_after(init, actions) != token,
{
    lemma_counter_after_is_length(init, actions);
}

/// How a playback worker is gated. Most operations carry the token minted at
/// their start; a fire-and-forget path that never reaches a playback loop
/// runs ungated instead of overloading any counter value as a sentinel.
pub enum Gate {
    /// Never superseded; used only by paths that do not loop on a device.
    Ungated,
    /// Superseded once the class counter moves past this token.
    Token(u64),
}

impl Gate {
    pub open spec fn passes_spec(self, c: GenerationCounter) -> bool {
        match self {
            Gate::Ungated => true,
            Gate::Token(t) => c.authoritative(t),
        }
    }

    /// Whether the worker holding this gate still has authority.
    pub fn passes(&self, c: &GenerationCounter) -> (r: bool)
        ensures
            r == self.passes_spec(*c),
    {
        match self {
            Gate::Ungated => true,
            Gate::Token(t) => c.is_current(*t),
        }
    }
}

} // verus!
