//! Cycle accounting and the rules of the mode scheduler and the status
//! interrupt gate.

use vstd::prelude::*;

use crate::registers::PPURegisters;

verus! {

/// Duration of one scanline, in cycles.
pub const LINE_CYCLES: u64 = 456;

/// Duration of one whole frame (154 scanlines), in cycles.
pub const FRAME_CYCLES: u64 = 70224;

/// The status-interrupt source `bit` (3..=6) is enabled in `stat`.
pub open spec fn stat_enabled(stat: u8, bit: u8) -> bool {
    3 <= bit <= 6 && stat & (1u8 << bit) != 0
}

/// The mode the chip is in after a step at scanline `line`, offset `off`,
/// having been in `mode`.
pub open spec fn mode_after(line: int, off: int, mode: u8) -> u8 {
    if line < 144 && off == 0 {
        2
    } else if line < 144 && off == 80 {
        3
    } else if line < 144 && off == 252 {
        0
    } else if line == 144 && off == 0 {
        1
    } else {
        mode
    }
}

/// Some enabled status-interrupt condition is raised by a step at
/// scanline `line`, offset `off`.
pub open spec fn stat_requested(line: int, off: int, lyc: u8, stat: u8) -> bool {
    ||| (line == lyc && off == 0 && stat_enabled(stat, 6))
    ||| (line < 144 && off == 0 && stat_enabled(stat, 5))
    ||| (line < 144 && off == 252 && stat_enabled(stat, 3))
    ||| (line == 144 && off == 0 && stat_enabled(stat, 4))
}

/// A request sets the status latch only when no request has succeeded yet
/// on this scanline.
pub open spec fn stat_fires(blocked: bool, requested: bool) -> bool {
    !blocked && requested
}

/// The cycle counter after one quantum of 4 cycles, modulo a frame.
pub open spec fn next_cycles(c: int) -> int {
    (c + 4) % (FRAME_CYCLES as int)
}

/// Timing facts that hold between steps: the counter stays within a
/// frame on the 4-cycle grid, `LY` is the derived scanline, and the window
/// line counter has advanced at most once per line drawn so far.
pub open spec fn timing_ok(r: PPURegisters, c: int) -> bool {
    &&& 0 <= c < FRAME_CYCLES
    &&& c % 4 == 0
    &&& r.LY == c / 456
    &&& r.WC <= r.LY + (if c % 456 >= 80 {
        1int
    } else {
        0int
    })
}

/// Two status values that agree on bits 3-7 enable the same sources.
pub(crate) proof fn lemma_enable_bits_kept(s1: u8, s2: u8, bit: u8)
    requires
        s1 & 0xF8 == s2 & 0xF8,
        3 <= bit <= 6,
    ensures
        stat_enabled(s1, bit) == stat_enabled(s2, bit),
{
    assert(s1 & (1u8 << bit) == s2 & (1u8 << bit)) by (bit_vector)
        requires
            s1 & 0xF8 == s2 & 0xF8,
            3 <= bit <= 6,
    ;
}

/// Two status values that agree on bits 3-7 agree on the fixed top bit.
pub(crate) proof fn lemma_top_bit_kept(s1: u8, s2: u8)
    requires
        s1 & 0xF8 == s2 & 0xF8,
    ensures
        (s1 & 0x80 != 0) == (s2 & 0x80 != 0),
{
    assert((s1 & 0x80 != 0) == (s2 & 0x80 != 0)) by (bit_vector)
        requires
            s1 & 0xF8 == s2 & 0xF8,
    ;
}

/// Writing the mode bits keeps the coincidence bit and the enable bits.
pub(crate) proof fn lemma_mode_bits(s: u8, m: u8)
    requires
        m < 4,
    ensures
        ((s & 0xFC) | m) & 0xF8 == s & 0xF8,
        ((s & 0xFC) | m) & 4 == s & 4,
        ((s & 0xFC) | m) & 3 == m,
{
    assert(((s & 0xFC) | m) & 0xF8 == s & 0xF8 && ((s & 0xFC) | m) & 4 == s & 4 && ((s & 0xFC)
        | m) & 3 == m) by (bit_vector)
        requires
            m < 4,
    ;
}

/// Writing the coincidence bit keeps the mode bits and the enable bits.
pub(crate) proof fn lemma_coincidence_bit(s: u8, c: bool)
    ensures
        ((s & 0xFB) | (if c { 4u8 } else { 0u8 })) & 0xF8 == s & 0xF8,
        ((s & 0xFB) | (if c { 4u8 } else { 0u8 })) & 3 == s & 3,
        (((s & 0xFB) | (if c { 4u8 } else { 0u8 })) & 4 != 0) == c,
{
    let b: u8 = if c { 4u8 } else { 0u8 };
    assert(((s & 0xFB) | b) & 0xF8 == s & 0xF8 && ((s & 0xFB) | b) & 3 == s & 3 && (((s & 0xFB)
        | b) & 4 != 0) == (b == 4)) by (bit_vector)
        requires
            b == 4 || b == 0,
    ;
}

/// One quantum either stays on the scanline, starts the next one at
/// offset 0, or wraps from the end of the frame to line 0, offset 0.
pub(crate) proof fn lemma_next_cycles(p: int)
    requires
        0 <= p < FRAME_CYCLES,
        p % 4 == 0,
    ensures
        0 <= next_cycles(p) < FRAME_CYCLES,
        next_cycles(p) % 4 == 0,
        p / 456 <= 153,
        next_cycles(p) / 456 <= 153,
        (next_cycles(p) / 456 == p / 456 && next_cycles(p) % 456 == p % 456 + 4) || (next_cycles(p)
            / 456 == p / 456 + 1 && next_cycles(p) % 456 == 0) || (p == FRAME_CYCLES - 4
            && next_cycles(p) == 0),
{
}

/// Cycle counter after `k` quanta from `c`.
pub open spec fn cycles_after(c: int, k: nat) -> int
    decreases k,
{
    if k == 0 {
        c
    } else {
        next_cycles(cycles_after(c, (k - 1) as nat))
    }
}

/// Number of frames completed during `k` quanta from `c`.
pub open spec fn frames_after(c: int, k: nat) -> int
    decreases k,
{
    if k == 0 {
        0
    } else {
        frames_after(c, (k - 1) as nat) + (if cycles_after(c, (k - 1) as nat) + 4 >= FRAME_CYCLES {
            1int
        } else {
            0int
        })
    }
}

} // verus!
