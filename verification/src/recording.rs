//! Recording session controller.
//!
//! One recording may be live at a time. Its worker carries the token minted
//! at session start and polls `poll_continue` between capture bursts;
//! `stop` ends the session so that the transcript pipeline proceeds, while
//! `cancel` additionally writes the vacated generation into the
//! cancellation marker so that the pipeline skips its downstream call and
//! returns an empty transcript instead. The telemetry cell moves with the
//! session: reset to silence at start, updated with each captured frame
//! while the worker is authoritative, and set to the awaiting sentinel once
//! capture ends on the non-canceled path.

use crate::generation::GenerationCounter;
use crate::telemetry::AtomicF32;
use crate::telemetry::AWAITING_RESULT_BITS;
use crate::telemetry::SILENCE_BITS;
use crate::telemetry::is_amplitude_pattern;
use vstd::prelude::*;

verus! {

/// Shared state of the recording class: its generation counter, the
/// cancellation marker, and the loudness telemetry cell.
pub struct Recorder {
    counter: GenerationCounter,
    canceled: Option<u64>,
    loudness: AtomicF32,
}

/// Mathematical state of a `Recorder`, for stating laws about whole
/// histories of commands and worker steps.
pub ghost struct RecorderModel {
    pub generation: int,
    pub marker: Option<int>,
    pub loudness: u32,
}

/// One step taken against the recording state: a command from the caller or
/// an action of the capture worker.
pub ghost enum RecorderEvent {
    /// A session start: mints the token one past the generation it found.
    BeginSession,
    /// The stop command: ends the session, the transcript pipeline proceeds.
    Stop,
    /// The cancel command: ends the session and marks it canceled.
    Cancel,
    /// The worker offers one captured frame's amplitude.
    Frame { token: int, bits: u32 },
    /// The worker has finalized; the pipeline decides whether to proceed.
    Finish { token: int },
}

impl RecorderModel {
    /// The marker only ever holds an already-vacated generation, and the
    /// cell only ever holds an amplitude or the awaiting sentinel.
    pub open spec fn wf(self) -> bool {
        &&& match self.marker {
            Option::None => true,
            Option::Some(k) => k < self.generation,
        }
        &&& (is_amplitude_pattern(self.loudness) || self.loudness == AWAITING_RESULT_BITS)
    }

    /// Whether a session holding `token` must skip its downstream call: the
    /// marker has reached or passed it.
    pub open spec fn skip(self, token: int) -> bool {
        match self.marker {
            Option::None => false,
            Option::Some(k) => token <= k,
        }
    }
}

/// The transition each event makes on the recording state.
pub open spec fn recorder_step(m: RecorderModel, e: RecorderEvent) -> RecorderModel {
    match e {
        RecorderEvent::BeginSession => RecorderModel {
            generation: m.generation + 1,
            loudness: SILENCE_BITS,
            ..m
        },
        RecorderEvent::Stop => RecorderModel { generation: m.generation + 1, ..m },
        RecorderEvent::Cancel => RecorderModel {
            generation: m.generation + 1,
            marker: Option::Some(m.generation),
            ..m
        },
        RecorderEvent::Frame { token, bits } => if token == m.generation
            && is_amplitude_pattern(bits) {
            RecorderModel { loudness: bits, ..m }
        } else {
            m
        },
        RecorderEvent::Finish { token } => if m.skip(token) {
            m
        } else {
            RecorderModel { loudness: AWAITING_RESULT_BITS, ..m }
        },
    }
}

/// The state after a whole history of events.
pub open spec fn run_recorder(m: RecorderModel, events: Seq<RecorderEvent>) -> RecorderModel
    decreases events.len(),
{
    if events.len() == 0 {
        m
    } else {
        recorder_step(run_recorder(m, events.drop_last()), events.last())
    }
}

impl Recorder {
    pub closed spec fn generation(self) -> u64 {
        self.counter.current()
    }

    pub closed spec fn marker(self) -> Option<u64> {
        self.canceled
    }

    pub closed spec fn loudness_bits(self) -> u32 {
        self.loudness.bits()
    }

    pub open spec fn model(self) -> RecorderModel {
        RecorderModel {
            generation: self.generation() as int,
            marker: match self.marker() {
                Option::None => Option::None,
                Option::Some(k) => Option::Some(k as int),
            },
            loudness: self.loudness_bits(),
        }
    }

    pub open spec fn wf(self) -> bool {
        self.model().wf()
    }

    /// Whether the session holding `token` was explicitly canceled rather
    /// than merely superseded.
    pub open spec fn skip_spec(self, token: u64) -> bool {
        self.model().skip(token as int)
    }

    pub fn new() -> (r: Recorder)
        ensures
            r.wf(),
            r.generation() == 0,
            r.marker() is None,
            r.loudness_bits() == SILENCE_BITS,
    {
        Recorder {
            counter: GenerationCounter::new(),
            canceled: Option::None,
            loudness: AtomicF32::new(SILENCE_BITS),
        }
    }

    /// Start a session: reset the telemetry cell to silence and mint the
    /// token the capture worker will carry. Every earlier token goes stale.
    pub fn begin_session(&mut self) -> (token: u64)
        requires
            old(self).wf(),
            old(self).generation() < u64::MAX,
        ensures
            final(self).wf(),
            token == old(self).generation() + 1,
            final(self).generation() == token,
            final(self).marker() == old(self).marker(),
            final(self).loudness_bits() == SILENCE_BITS,
            final(self).model() == recorder_step(old(self).model(), RecorderEvent::BeginSession),
    {
        self.loudness.store(SILENCE_BITS);
        self.counter.begin()
    }

    /// End the current session; the transcript pipeline then proceeds. The
    /// marker is untouched, so the ended session is not treated as canceled.
    pub fn stop(&mut self)
        requires
            old(self).wf(),
            old(self).generation() < u64::MAX,
        ensures
            final(self).wf(),
            final(self).generation() == old(self).generation() + 1,
            final(self).marker() == old(self).marker(),
            final(self).loudness_bits() == old(self).loudness_bits(),
            final(self).model() == recorder_step(old(self).model(), RecorderEvent::Stop),
    {
        self.counter.force_stop();
    }

    /// End the current session and record the vacated generation in the
    /// cancellation marker; the session's pipeline will skip its downstream
    /// call. The marker never decreases.
    pub fn cancel(&mut self)
        requires
            old(self).wf(),
            old(self).generation() < u64::MAX,
        ensures
            final(self).wf(),
            final(self).generation() == old(self).generation() + 1,
            final(self).marker() == Some(old(self).generation()),
            final(self).loudness_bits() == old(self).loudness_bits(),
            marker_le(old(self).marker(), final(self).marker()),
            final(self).model() == recorder_step(old(self).model(), RecorderEvent::Cancel),
    {
        self.canceled = Option::Some(self.counter.current_value());
        self.counter.force_stop();
    }

    /// Read the live recording generation, for embedders that must check
    /// the machine bound before starting or ending a session.
    pub fn generation_value(&self) -> (v: u64)
        ensures
            v == self.generation(),
    {
        self.counter.current_value()
    }

    /// The staleness poll of the capture worker: true while its token is
    /// still the live generation.
    pub fn poll_continue(&self, token: u64) -> (r: bool)
        ensures
            r == (token == self.generation()),
    {
        self.counter.is_current(token)
    }

    /// Offer one captured frame's amplitude. Only the authoritative worker
    /// reaches the cell: a stale worker's frame changes nothing, so a
    /// superseded session can never corrupt a newer session's telemetry.
    pub fn capture_frame(&mut self, token: u64, bits: u32)
        requires
            old(self).wf(),
            is_amplitude_pattern(bits),
        ensures
            final(self).wf(),
            final(self).generation() == old(self).generation(),
            final(self).marker() == old(self).marker(),
            token == old(self).generation() ==> final(self).loudness_bits() == bits,
            token != old(self).generation() ==> final(self).loudness_bits() == old(
                self,
            ).loudness_bits(),
            final(self).model() == recorder_step(
                old(self).model(),
                RecorderEvent::Frame { token: token as int, bits },
            ),
    {
        if self.counter.is_current(token) {
            self.loudness.store(bits);
        }
    }

    /// The capture worker has finalized its buffered samples. Decide the
    /// session's outcome: if its token was canceled, the caller returns an
    /// empty transcript and the cell is left alone; otherwise the cell shows
    /// the awaiting sentinel from this instant until a new session begins,
    /// and only then may the caller issue the downstream call.
    pub fn finish_capture(&mut self, token: u64) -> (skip: bool)
        requires
            old(self).wf(),
        ensures
            final(self).wf(),
            skip == old(self).skip_spec(token),
            final(self).generation() == old(self).generation(),
            final(self).marker() == old(self).marker(),
            skip ==> final(self).loudness_bits() == old(self).loudness_bits(),
            !skip ==> final(self).loudness_bits() == AWAITING_RESULT_BITS,
            final(self).model() == recorder_step(
                old(self).model(),
                RecorderEvent::Finish { token: token as int },
            ),
    {
        let skip = match self.canceled {
            Option::None => false,
            Option::Some(k) => token <= k,
        };
        if !skip {
            self.loudness.store(AWAITING_RESULT_BITS);
        }
        skip
    }

    /// What the polling observer reads: an amplitude bit pattern, or the
    /// awaiting sentinel.
    pub fn load_loudness(&self) -> (bits: u32)
        ensures
            bits == self.loudness_bits(),
    {
        self.loudness.load()
    }

    /// Whether the session holding `token` must skip its downstream call.
    pub fn should_skip(&self, token: u64) -> (skip: bool)
        ensures
            skip == self.skip_spec(token),
    {
        match self.canceled {
            Option::None => false,
            Option::Some(k) => token <= k,
        }
    }
}

/// Marker order: `None` is below every generation, and generations compare
/// as integers.
pub open spec fn marker_le(a: Option<u64>, b: Option<u64>) -> bool {
    match a {
        Option::None => true,
        Option::Some(x) => match b {
            Option::None => false,
            Option::Some(y) => x <= y,
        },
    }
}

/// Canceling marks exactly the vacated session: immediately after `cancel`,
/// the session that held the live generation is told to skip its downstream
/// call, while any session begun afterwards (its token is strictly greater)
/// is unaffected by the marker.
pub proof fn lemma_cancel_skips_only_canceled_session(m: RecorderModel, t: int)
    requires
        m.wf(),
        t == m.generation,
    ensures
        ({
            let after = recorder_step(m, RecorderEvent::Cancel);
            &&& after.skip(t)
            &&& forall|t2: int| t2 > t ==> !after.skip(t2)
        }),
{
}

/// A marker left behind by any older `cancel` (even one racing a
/// `force_stop` over the same generation) never short-circuits a later
/// session: a token strictly greater than the live generation it was minted
/// from is above the marker.
pub proof fn lemma_newer_session_not_short_circuited(m: RecorderModel, t2: int)
    requires
        m.wf(),
        t2 > m.generation,
    ensures
        !m.skip(t2),
{
}

/// The stop path surfaces the awaiting sentinel before any transcript can
/// exist: stopping never causes a skip, and the finalize step that precedes
/// the downstream call leaves the cell at the sentinel.
pub proof fn lemma_stop_then_finish_awaits(m: RecorderModel, t: int)
    requires
        m.wf(),
        t == m.generation,
    ensures
        ({
            let stopped = recorder_step(m, RecorderEvent::Stop);
            let finished = recorder_step(stopped, RecorderEvent::Finish { token: t });
            &&& !stopped.skip(t)
            &&& finished.loudness == AWAITING_RESULT_BITS
        }),
{
}

/// Once the cell shows the awaiting sentinel it keeps showing it until a
/// new session begins: across any further events in which no session starts
/// and every offered frame is stale, the observer keeps reading the
/// sentinel. (A fresh `BeginSession` resets the cell to silence, and only
/// it does.)
pub proof fn lemma_awaiting_persists(m: RecorderModel, events: Seq<RecorderEvent>)
    requires
        m.loudness == AWAITING_RESULT_BITS,
        forall|i: int| 0 <= i < events.len() ==> !(events[i] is BeginSession),
        forall|i: int|
            #![trigger events.take(i)]
            0 <= i < events.len() ==> (events[i] matches RecorderEvent::Frame { token, .. }
                ==> token != run_recorder(m, events.take(i)).generation),
    ensures
        run_recorder(m, events).loudness == AWAITING_RESULT_BITS,
    decreases events.len(),
{
    if events.len() > 0 {
        let prefix = events.drop_last();
        assert(prefix =~= events.take(events.len() - 1));
        assert forall|i: int|
            #![trigger prefix.take(i)]
            0 <= i < prefix.len() implies (prefix[i] matches RecorderEvent::Frame { token, .. }
            ==> token != run_recorder(m, prefix.take(i)).generation) by {
            assert(prefix.take(i) =~= events.take(i));
        }
        lemma_awaiting_persists(m, prefix);
        let before = run_recorder(m, prefix);
        match events.last() {
            RecorderEvent::Frame { token, .. } => {
                assert(token != before.generation);
            },
            _ => {},
        }
    }
}

} // verus!
