//! Streamed chat-completion ingestion.
//!
//! The network layer reads response bytes in arbitrary chunks and feeds
//! them here. Bytes run through the frame splitter; each completed record
//! is interpreted: the documented terminal sentinel is discarded, a record
//! carrying the data-field prefix has the prefix stripped and the remainder
//! decoded as text (invalid byte sequences are replaced, never fatal) and
//! appended to the request's event buffer, and any other record shape —
//! comments, keep-alives — is ignored. Cancellation is honored at record
//! boundaries only: once the request is marked canceled, ingestion stops
//! consuming bytes right after the record that completed, leaving buffered
//! events available to a final drain.

use crate::events::EventBuffers;
use crate::events::append_event;
use crate::sse::FrameSplitter;
use crate::sse::residual_bytes;
use crate::sse::run_frames;
use crate::sse::run_state;
use crate::sse::lemma_split_chunking_irrelevant;
use vstd::prelude::*;

verus! {

/// The bytes of the data-field prefix, `data: `.
pub open spec fn data_prefix() -> Seq<u8> {
    seq![100u8, 97u8, 116u8, 97u8, 58u8, 32u8]
}

/// The bytes of the terminal record, `data: [DONE]`, as far as it is
/// recognized: a record beginning so is discarded.
pub open spec fn done_prefix() -> Seq<u8> {
    data_prefix() + seq![91u8, 68u8, 79u8, 78u8, 69u8, 93u8]
}

/// A record that begins with `prefix`.
pub open spec fn has_prefix(f: Seq<u8>, prefix: Seq<u8>) -> bool {
    f.len() >= prefix.len() && f.take(prefix.len() as int) == prefix
}

/// A record that delivers an event: it carries the data prefix and is not
/// the terminal sentinel.
pub open spec fn is_data_frame(f: Seq<u8>) -> bool {
    has_prefix(f, data_prefix()) && !has_prefix(f, done_prefix())
}

/// The event one record contributes, if any: its payload behind the data
/// prefix, decoded with lossy replacement.
pub open spec fn frame_event(f: Seq<u8>) -> Option<Seq<char>> {
    if is_data_frame(f) {
        Some(lossy_utf8(f.skip(data_prefix().len() as int)))
    } else {
        None
    }
}

/// The events a sequence of records contributes, in order.
pub open spec fn frame_events(fs: Seq<Seq<u8>>) -> Seq<Seq<char>>
    decreases fs.len(),
{
    if fs.len() == 0 {
        Seq::empty()
    } else {
        frame_events(fs.drop_last()) + match frame_event(fs.last()) {
            Some(e) => seq![e],
            None => Seq::empty(),
        }
    }
}

/// The buffer mapping after a batch of events is appended for `id`.
pub open spec fn append_events(
    m: Map<u64, Seq<Seq<char>>>,
    id: u64,
    events: Seq<Seq<char>>,
) -> Map<u64, Seq<Seq<char>>>
    decreases events.len(),
{
    if events.len() == 0 {
        m
    } else {
        append_event(append_events(m, id, events.drop_last()), id, events.last())
    }
}

/// What `String::from_utf8_lossy` decodes a byte sequence to. The result
/// depends on the bytes alone.
pub uninterp spec fn lossy_utf8(bytes: Seq<u8>) -> Seq<char>;

/// Relies on `String::from_utf8_lossy`: decodes UTF-8, replacing invalid
/// sequences instead of failing; ASCII bytes, being valid one-byte UTF-8,
/// decode to exactly their own characters.
#[verifier::external_body]
fn decode_lossy(bytes: &[u8]) -> (s: String)
    ensures
        s@ == lossy_utf8(bytes@),
        (forall|i: int| 0 <= i < bytes@.len() ==> bytes@[i] < 128) ==> s@ == bytes@.map(
            |i: int, b: u8| b as char,
        ),
{
    String::from_utf8_lossy(bytes).into_owned()
}

/// Whether `frame` begins with `prefix`.
fn starts_with_bytes(frame: &[u8], prefix: &[u8]) -> (r: bool)
    ensures
        r == has_prefix(frame@, prefix@),
{
    if frame.len() < prefix.len() {
        return false;
    }
    let n = prefix.len();
    let mut i: usize = 0;
    while i < n
        invariant
            n == prefix@.len(),
            n <= frame@.len(),
            i <= n,
            forall|j: int| 0 <= j < i ==> frame@[j] == prefix@[j],
        decreases n - i,
    {
        if frame[i] != prefix[i] {
            proof {
                assert(frame@.take(n as int)[i as int] != prefix@[i as int]);
            }
            return false;
        }
        i = i + 1;
    }
    proof {
        assert(frame@.take(n as int) =~= prefix@);
    }
    true
}

/// The data-field prefix as runtime bytes.
fn data_prefix_bytes() -> (v: Vec<u8>)
    ensures
        v@ == data_prefix(),
{
    let mut v: Vec<u8> = Vec::new();
    v.push(100);
    v.push(97);
    v.push(116);
    v.push(97);
    v.push(58);
    v.push(32);
    proof {
        assert(v@ =~= data_prefix());
    }
    v
}

/// The terminal record's recognized bytes at runtime.
fn done_prefix_bytes() -> (v: Vec<u8>)
    ensures
        v@ == done_prefix(),
{
    let mut v = data_prefix_bytes();
    v.push(91);
    v.push(68);
    v.push(79);
    v.push(78);
    v.push(69);
    v.push(93);
    proof {
        assert(v@ =~= done_prefix());
    }
    v
}

/// Interpret one completed record for `request_id`: append its decoded
/// payload if it is a data record, discard the terminal sentinel, ignore
/// every other shape. No other request's queue and no cancellation state
/// is touched.
pub fn handle_chat_completion_server_event(
    buffers: &mut EventBuffers,
    request_id: u64,
    frame: &[u8],
)
    requires
        old(buffers).wf(),
    ensures
        final(buffers).wf(),
        final(buffers).canceled_set() == old(buffers).canceled_set(),
        match frame_event(frame@) {
            Some(e) => final(buffers).events() == append_event(
                old(buffers).events(),
                request_id,
                e,
            ),
            None => final(buffers).events() == old(buffers).events(),
        },
{
    let done = done_prefix_bytes();
    let data = data_prefix_bytes();
    if !starts_with_bytes(frame, done.as_slice()) && starts_with_bytes(frame, data.as_slice()) {
        let payload = &frame[6..frame.len()];
        proof {
            assert(payload@ =~= frame@.skip(data_prefix().len() as int));
        }
        let event = decode_lossy(payload);
        buffers.append(request_id, event);
    }
}

/// Outcome of feeding one network chunk.
pub struct IngestOutcome {
    /// Ingestion observed the cancellation at a record boundary and stopped
    /// consuming; the caller must stop reading the stream.
    pub halted: bool,
    /// How many bytes of the chunk were consumed before stopping.
    pub consumed: usize,
}

/// Feed one network chunk for `request_id` through the splitter,
/// interpreting each completed record. If the request is marked canceled,
/// ingestion stops at the first record boundary inside the chunk — never
/// mid-record — and reports that it halted; already-appended events remain
/// buffered for a final drain.
#[verifier::loop_isolation(false)]
pub fn ingest_chunk(
    splitter: &mut FrameSplitter,
    buffers: &mut EventBuffers,
    request_id: u64,
    chunk: &[u8],
) -> (r: IngestOutcome)
    requires
        old(buffers).wf(),
    ensures
        final(buffers).wf(),
        final(buffers).canceled_set() == old(buffers).canceled_set(),
        r.consumed <= chunk@.len(),
        ({
            let b0 = old(splitter).buf_bytes();
            let p0 = old(splitter).pending_separator();
            let taken = chunk@.take(r.consumed as int);
            &&& final(splitter).buf_bytes() == run_state(b0, p0, taken).0
            &&& final(splitter).pending_separator() == run_state(b0, p0, taken).1
            &&& final(buffers).events() == append_events(
                old(buffers).events(),
                request_id,
                frame_events(run_frames(b0, p0, taken)),
            )
            &&& !old(buffers).canceled_set().contains(request_id) ==> !r.halted && r.consumed
                == chunk@.len()
            &&& old(buffers).canceled_set().contains(request_id) ==> (r.halted <==> run_frames(
                b0,
                p0,
                chunk@,
            ).len() > 0)
            &&& r.halted ==> run_frames(b0, p0, taken).len() == 1 && (forall|j: int|
                0 <= j < r.consumed ==> run_frames(b0, p0, chunk@.take(j)).len() == 0)
            &&& !r.halted ==> r.consumed == chunk@.len()
        }),
{
    let ghost b0 = splitter.buf_bytes();
    let ghost p0 = splitter.pending_separator();
    let ghost m0 = buffers.events();
    let cancel_requested = buffers.is_canceled(request_id);
    let n = chunk.len();
    let mut i: usize = 0;
    while i < n
        invariant
            old(buffers).wf(),
            buffers.wf(),
            n == chunk@.len(),
            i <= n,
            splitter.buf_bytes() == run_state(b0, p0, chunk@.take(i as int)).0,
            splitter.pending_separator() == run_state(b0, p0, chunk@.take(i as int)).1,
            buffers.events() == append_events(
                m0,
                request_id,
                frame_events(run_frames(b0, p0, chunk@.take(i as int))),
            ),
            buffers.canceled_set() == old(buffers).canceled_set(),
            m0 == old(buffers).events(),
            cancel_requested == old(buffers).canceled_set().contains(request_id),
            cancel_requested ==> forall|j: int|
                0 <= j <= i ==> run_frames(b0, p0, chunk@.take(j)).len() == 0,
        decreases n - i,
    {
        let b = chunk[i];
        let ghost pre = chunk@.take(i as int);
        let frame_opt = splitter.push_byte(b);
        i = i + 1;
        proof {
            assert(chunk@.take(i as int).drop_last() =~= pre);
            assert(chunk@.take(i as int).last() == b);
        }
        match frame_opt {
            Some(frame) => {
                let ghost fs_pre = run_frames(b0, p0, pre);
                proof {
                    assert(run_frames(b0, p0, chunk@.take(i as int)) =~= fs_pre.push(frame@));
                    assert(fs_pre.push(frame@).drop_last() =~= fs_pre);
                }
                handle_chat_completion_server_event(buffers, request_id, frame.as_slice());
                proof {
                    let es_pre = frame_events(fs_pre);
                    match frame_event(frame@) {
                        Some(e) => {
                            assert(frame_events(fs_pre.push(frame@)) =~= es_pre.push(e));
                            assert(es_pre.push(e).drop_last() =~= es_pre);
                        },
                        None => {
                            assert(frame_events(fs_pre.push(frame@)) =~= es_pre);
                        },
                    }
                }
                if cancel_requested {
                    proof {
                        assert(chunk@ =~= chunk@.take(i as int) + chunk@.skip(i as int));
                        lemma_split_chunking_irrelevant(b0, p0, chunk@.take(i as int), chunk@.skip(i as int));
                    }
                    return IngestOutcome { halted: true, consumed: i };
                }
            },
            None => {
                proof {
                    assert(run_frames(b0, p0, chunk@.take(i as int)) =~= run_frames(b0, p0, pre));
                }
            },
        }
    }
    proof {
        assert(chunk@.take(n as int) =~= chunk@);
    }
    IngestOutcome { halted: false, consumed: n }
}

/// End of stream for `request_id`: flush the splitter's residual bytes as
/// a final record and interpret it, so trailing data arriving without a
/// closing blank line is still delivered.
pub fn finish_stream(splitter: &mut FrameSplitter, buffers: &mut EventBuffers, request_id: u64)
    requires
        old(buffers).wf(),
    ensures
        final(buffers).wf(),
        final(buffers).canceled_set() == old(buffers).canceled_set(),
        final(splitter).buf_bytes() == Seq::<u8>::empty(),
        !final(splitter).pending_separator(),
        ({
            let res = residual_bytes(old(splitter).buf_bytes(), old(splitter).pending_separator());
            if res.len() == 0 {
                final(buffers).events() == old(buffers).events()
            } else {
                match frame_event(res) {
                    Some(e) => final(buffers).events() == append_event(
                        old(buffers).events(),
                        request_id,
                        e,
                    ),
                    None => final(buffers).events() == old(buffers).events(),
                }
            }
        }),
{
    match splitter.take_residual() {
        Some(frame) => {
            handle_chat_completion_server_event(buffers, request_id, frame.as_slice());
        },
        None => {},
    }
}

} // verus!
