//! Incremental frame splitter for blank-line-delimited event streams.
//!
//! The network hands bytes over in chunks with no guarantee on chunk
//! boundaries, so the splitter consumes one byte at a time. A record ends
//! exactly where two consecutive line-separator bytes appear (an empty
//! line); the separators of the boundary belong to no record, while a lone
//! separator is ordinary payload content. At end of stream, a residual
//! non-empty buffer is flushed as a final frame so that no trailing data is
//! lost.
//!
//! `run_state` / `run_frames` give the meaning of feeding any byte
//! sequence, and `lemma_split_chunking_irrelevant` shows that meaning does
//! not depend on how the sequence was cut into chunks.

use vstd::prelude::*;

verus! {

/// The line separator of the stream framing.
pub const LINE_SEPARATOR: u8 = 10;

/// Buffer after one byte: a boundary clears it; a lone held separator
/// rejoins the payload; an ordinary byte is appended.
pub open spec fn step_buf(buf: Seq<u8>, pending: bool, b: u8) -> Seq<u8> {
    if pending {
        if b == LINE_SEPARATOR {
            Seq::empty()
        } else {
            buf.push(LINE_SEPARATOR).push(b)
        }
    } else {
        if b == LINE_SEPARATOR {
            buf
        } else {
            buf.push(b)
        }
    }
}

/// Separator flag after one byte: set exactly when the byte is a separator
/// that did not close a boundary.
pub open spec fn step_pending(pending: bool, b: u8) -> bool {
    b == LINE_SEPARATOR && !pending
}

/// The frame completed by one byte, if any: the accumulated record, emitted
/// when a second consecutive separator arrives.
pub open spec fn step_frame(buf: Seq<u8>, pending: bool, b: u8) -> Option<Seq<u8>> {
    if pending && b == LINE_SEPARATOR {
        Some(buf)
    } else {
        None
    }
}

/// Splitter state after feeding a whole byte sequence.
pub open spec fn run_state(buf: Seq<u8>, pending: bool, bytes: Seq<u8>) -> (Seq<u8>, bool)
    decreases bytes.len(),
{
    if bytes.len() == 0 {
        (buf, pending)
    } else {
        let prev = run_state(buf, pending, bytes.drop_last());
        (step_buf(prev.0, prev.1, bytes.last()), step_pending(prev.1, bytes.last()))
    }
}

/// The frames completed while feeding a whole byte sequence, in order.
pub open spec fn run_frames(buf: Seq<u8>, pending: bool, bytes: Seq<u8>) -> Seq<Seq<u8>>
    decreases bytes.len(),
{
    if bytes.len() == 0 {
        Seq::empty()
    } else {
        let prev = run_state(buf, pending, bytes.drop_last());
        let frames = run_frames(buf, pending, bytes.drop_last());
        match step_frame(prev.0, prev.1, bytes.last()) {
            Some(f) => frames.push(f),
            None => frames,
        }
    }
}

/// What remains for the end-of-stream flush: the buffer, with a held lone
/// separator rejoined as content.
pub open spec fn residual_bytes(buf: Seq<u8>, pending: bool) -> Seq<u8> {
    if pending {
        buf.push(LINE_SEPARATOR)
    } else {
        buf
    }
}

/// Feeding `first + rest` is feeding `first`, then feeding `rest` from the
/// state it left: the split into chunks is irrelevant, both for the final
/// state and for the frames, which concatenate in order.
pub proof fn lemma_split_chunking_irrelevant(
    buf: Seq<u8>,
    pending: bool,
    first: Seq<u8>,
    rest: Seq<u8>,
)
    ensures
        ({
            let mid = run_state(buf, pending, first);
            &&& run_state(buf, pending, first + rest) == run_state(mid.0, mid.1, rest)
            &&& run_frames(buf, pending, first + rest) == run_frames(buf, pending, first)
                + run_frames(mid.0, mid.1, rest)
        }),
    decreases rest.len(),
{
    let mid = run_state(buf, pending, first);
    if rest.len() == 0 {
        assert(first + rest =~= first);
        assert(run_frames(buf, pending, first) + run_frames(mid.0, mid.1, rest) =~= run_frames(
            buf,
            pending,
            first,
        ));
    } else {
        lemma_split_chunking_irrelevant(buf, pending, first, rest.drop_last());
        assert((first + rest).drop_last() =~= first + rest.drop_last());
        assert((first + rest).last() == rest.last());
        let prev = run_state(mid.0, mid.1, rest.drop_last());
        match step_frame(prev.0, prev.1, rest.last()) {
            Some(f) => {
                assert((run_frames(buf, pending, first) + run_frames(
                    mid.0,
                    mid.1,
                    rest.drop_last(),
                )).push(f) =~= run_frames(buf, pending, first) + run_frames(
                    mid.0,
                    mid.1,
                    rest.drop_last(),
                ).push(f));
            },
            None => {},
        }
    }
}

/// Separator-free bytes only accumulate: no boundary can appear in them
/// and no frame comes out.
proof fn lemma_separator_free_accumulates(buf: Seq<u8>, bytes: Seq<u8>)
    requires
        forall|i: int| 0 <= i < bytes.len() ==> bytes[i] != LINE_SEPARATOR,
    ensures
        run_state(buf, false, bytes).0 == buf + bytes,
        !run_state(buf, false, bytes).1,
        run_frames(buf, false, bytes) == Seq::<Seq<u8>>::empty(),
    decreases bytes.len(),
{
    if bytes.len() == 0 {
        assert(buf + bytes =~= buf);
    } else {
        lemma_separator_free_accumulates(buf, bytes.drop_last());
        assert(buf + bytes =~= (buf + bytes.drop_last()).push(bytes.last()));
    }
}

/// One separator-free record closed by one blank line comes out as exactly
/// that record, and the splitter is back at its initial state: the two
/// boundary separators belong to no record.
pub proof fn lemma_single_record(r: Seq<u8>)
    requires
        forall|i: int| 0 <= i < r.len() ==> r[i] != LINE_SEPARATOR,
    ensures
        ({
            let fed = r + seq![LINE_SEPARATOR, LINE_SEPARATOR];
            &&& run_frames(Seq::empty(), false, fed) == seq![r]
            &&& run_state(Seq::empty(), false, fed).0 == Seq::<u8>::empty()
            &&& !run_state(Seq::empty(), false, fed).1
        }),
{
    reveal_with_fuel(run_state, 3);
    reveal_with_fuel(run_frames, 3);
    let fed = r + seq![LINE_SEPARATOR, LINE_SEPARATOR];
    let blank = seq![LINE_SEPARATOR, LINE_SEPARATOR];
    lemma_separator_free_accumulates(Seq::empty(), r);
    lemma_split_chunking_irrelevant(Seq::empty(), false, r, blank);
    assert(Seq::empty() + r =~= r);
    assert(blank.drop_last() =~= seq![LINE_SEPARATOR]);
    assert(seq![LINE_SEPARATOR].drop_last() =~= Seq::<u8>::empty());
    assert(run_frames(r, false, blank) =~= seq![r]);
    assert(run_frames(Seq::empty(), false, fed) =~= seq![r]);
}

/// Accumulation buffer plus the "previous byte was a separator" flag.
pub struct FrameSplitter {
    buf: Vec<u8>,
    pending: bool,
}

impl FrameSplitter {
    /// The bytes accumulated towards the next record.
    pub closed spec fn buf_bytes(self) -> Seq<u8> {
        self.buf@
    }

    /// Whether the previous byte was a separator not yet part of the record.
    pub closed spec fn pending_separator(self) -> bool {
        self.pending
    }

    pub fn new() -> (s: FrameSplitter)
        ensures
            s.buf_bytes() == Seq::<u8>::empty(),
            !s.pending_separator(),
    {
        FrameSplitter { buf: Vec::new(), pending: false }
    }

    /// Feed one byte; a completed record comes back at a boundary.
    pub fn push_byte(&mut self, b: u8) -> (frame: Option<Vec<u8>>)
        ensures
            final(self).buf_bytes() == step_buf(
                old(self).buf_bytes(),
                old(self).pending_separator(),
                b,
            ),
            final(self).pending_separator() == step_pending(old(self).pending_separator(), b),
            match frame {
                Some(f) => step_frame(old(self).buf_bytes(), old(self).pending_separator(), b)
                    == Some(f@),
                None => step_frame(old(self).buf_bytes(), old(self).pending_separator(), b)
                    is None,
            },
    {
        if self.pending && b == LINE_SEPARATOR {
            self.pending = false;
            let mut out: Vec<u8> = Vec::new();
            core::mem::swap(&mut out, &mut self.buf);
            Some(out)
        } else {
            if self.pending {
                self.buf.push(LINE_SEPARATOR);
            }
            self.pending = b == LINE_SEPARATOR;
            if b != LINE_SEPARATOR {
                self.buf.push(b);
            }
            None
        }
    }

    /// End of stream: flush any residual bytes as a final frame, so no
    /// trailing data is lost even without a closing blank line.
    pub fn take_residual(&mut self) -> (frame: Option<Vec<u8>>)
        ensures
            final(self).buf_bytes() == Seq::<u8>::empty(),
            !final(self).pending_separator(),
            match frame {
                Some(f) => f@ == residual_bytes(
                    old(self).buf_bytes(),
                    old(self).pending_separator(),
                ) && f@.len() > 0,
                None => residual_bytes(old(self).buf_bytes(), old(self).pending_separator()).len()
                    == 0,
            },
    {
        if self.pending {
            self.buf.push(LINE_SEPARATOR);
            self.pending = false;
        }
        if self.buf.len() == 0 {
            None
        } else {
            let mut out: Vec<u8> = Vec::new();
            core::mem::swap(&mut out, &mut self.buf);
            Some(out)
        }
    }
}

} // verus!
