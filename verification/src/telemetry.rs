//! Telemetry cell for the recording path.
//!
//! One shared value, written by the worker currently authoritative for its
//! generation and read by an independent polling observer. The value is a
//! 32-bit float held as its raw bit pattern, so that the protocol around the
//! cell can be verified without floating-point reasoning: the embedding
//! program converts with `f32::to_bits` / `f32::from_bits` at the edge. The
//! domain is the non-negative amplitudes (sign bit clear) plus one sentinel,
//! the pattern of -1.0, meaning "capture has ended, awaiting the downstream
//! result".

use vstd::prelude::*;

verus! {

/// Bit pattern of -1.0f32: the sentinel an observer reads while the
/// recording pipeline waits on its downstream collaborator.
pub const AWAITING_RESULT_BITS: u32 = 0xBF80_0000;

/// Bit pattern of 0.0f32: the amplitude a fresh session starts from.
pub const SILENCE_BITS: u32 = 0;

/// A clear sign bit encodes a non-negative float, so these are exactly the
/// patterns an amplitude may use; the sentinel is not among them.
pub open spec fn is_amplitude_pattern(bits: u32) -> bool {
    bits < 0x8000_0000
}

/// A float-valued cell held as the bit pattern of its value. The embedder
/// wraps it for shared access and does the float conversions; this type
/// carries the value itself, so contracts can pin every transition.
pub struct AtomicF32 {
    storage: u32,
}

impl AtomicF32 {
    pub closed spec fn bits(self) -> u32 {
        self.storage
    }

    pub fn new(bits: u32) -> (cell: AtomicF32)
        ensures
            cell.bits() == bits,
    {
        AtomicF32 { storage: bits }
    }

    pub fn store(&mut self, bits: u32)
        ensures
            final(self).bits() == bits,
    {
        self.storage = bits;
    }

    pub fn load(&self) -> (bits: u32)
        ensures
            bits == self.bits(),
    {
        self.storage
    }
}

} // verus!
