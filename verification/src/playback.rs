//! Transport position packing shared between the audio thread and readers.

use vstd::prelude::*;

verus! {

/// Grid resolution of the transport, in steps per beat (sixteenth notes).
pub const TICKS_PER_BEAT: usize = 4;

/// MIDI channel reserved for monitoring the player's own input.
pub const MONITOR_CHANNEL: u8 = 8;

/// A live note the player pressed on their MIDI controller.
#[derive(Clone, Copy, Debug)]
pub struct LiveMidiEvent {
    /// true = note-on, false = note-off.
    pub on: bool,
    pub note: u8,
    pub velocity: u8,
}

/// The packed value of a (bar, step) pair: the bar's low 32 bits in the high
/// half, the step's low 32 bits in the low half.
pub open spec fn packed_value(bar: int, step: int) -> int {
    (bar % 0x1_0000_0000) * 0x1_0000_0000 + (step % 0x1_0000_0000)
}

/// Pack a transport position into one 64-bit value: bar in the high 32 bits,
/// step in the low 32 bits.
pub fn pack(bar: usize, step: usize) -> (packed: u64)
    ensures
        packed == packed_value(bar as int, step as int),
{
    let b = bar as u64;
    let s = step as u64;
    assert((b << 32u64) | (s & 0xFFFF_FFFFu64) == (b % 0x1_0000_0000) * 0x1_0000_0000 + (s
        % 0x1_0000_0000)) by (bit_vector);
    (b << 32u64) | (s & 0xFFFF_FFFFu64)
}

/// Unpack a packed transport position into `(bar, step)`.
pub fn unpack(packed: u64) -> (pos: (usize, usize))
    ensures
        pos.0 == ((packed / 0x1_0000_0000) as usize),
        pos.1 == packed % 0x1_0000_0000,
{
    assert(packed >> 32u64 == packed / 0x1_0000_0000) by (bit_vector);
    assert(packed & 0xFFFF_FFFFu64 == packed % 0x1_0000_0000) by (bit_vector);
    ((packed >> 32u64) as usize, (packed & 0xFFFF_FFFFu64) as usize)
}

/// Round trip: unpacking a packed position gives back the bar and the step,
/// whenever both fit in 32 bits.
pub proof fn lemma_pack_unpack_roundtrip(bar: int, step: int)
    requires
        0 <= bar < 0x1_0000_0000,
        0 <= step < 0x1_0000_0000,
    ensures
        packed_value(bar, step) / 0x1_0000_0000 == bar,
        packed_value(bar, step) % 0x1_0000_0000 == step,
{
    assert(bar % 0x1_0000_0000 == bar);
    assert(step % 0x1_0000_0000 == step);
    assert((bar * 0x1_0000_0000 + step) / 0x1_0000_0000 == bar) by (nonlinear_arith)
        requires 0 <= step < 0x1_0000_0000;
    assert((bar * 0x1_0000_0000 + step) % 0x1_0000_0000 == step) by (nonlinear_arith)
        requires 0 <= step < 0x1_0000_0000;
}

/// The step never leaks into the bar half: whatever the step, the bar read
/// back from the packed value is the bar's low 32 bits.
pub proof fn lemma_step_never_leaks_into_bar(bar: int, step: int)
    requires
        0 <= bar,
        0 <= step,
    ensures
        packed_value(bar, step) / 0x1_0000_0000 == bar % 0x1_0000_0000,
{
    let b = bar % 0x1_0000_0000;
    let s = step % 0x1_0000_0000;
    assert(0 <= s < 0x1_0000_0000);
    assert((b * 0x1_0000_0000 + s) / 0x1_0000_0000 == b) by (nonlinear_arith)
        requires 0 <= s < 0x1_0000_0000;
}

/// The packed value always fits in 64 bits.
pub proof fn lemma_packed_fits(bar: int, step: int)
    ensures
        0 <= packed_value(bar, step) <= u64::MAX,
{
    let b = bar % 0x1_0000_0000;
    let s = step % 0x1_0000_0000;
    assert(0 <= b < 0x1_0000_0000 && 0 <= s < 0x1_0000_0000);
    assert(0 <= b * 0x1_0000_0000 + s <= u64::MAX) by (nonlinear_arith)
        requires 0 <= b < 0x1_0000_0000, 0 <= s < 0x1_0000_0000;
}

} // verus!
