//! Properties of the chip that span several calls.

use vstd::prelude::*;

use crate::display::W_WIDTH;
use crate::compositor::{
    after_line, bg_shade, tile_shade, vram_at, window_covers, window_on, window_placed,
};
use crate::ppu::PPU;
use crate::registers::{PPURegisters, PpuError};
use crate::timing::{next_cycles, stat_fires, stat_requested, FRAME_CYCLES, LINE_CYCLES};

verus! {

/// Between steps the cycle counter stays below a whole frame, `LY` is
/// the scanline derived from it, `cycles / 456`, and lies in 0..=153.
pub proof fn lemma_derived_scanline(s: PPU)
    requires
        s.wf(),
    ensures
        s.cycles < FRAME_CYCLES,
        s.registers.LY == s.cycles / LINE_CYCLES,
        s.registers.LY <= 153,
{
}

/// After every quantum the coincidence bit of `STAT` equals `LY == LYC`.
pub proof fn lemma_coincidence_bit_tracks(s: PPU, t: PPU)
    requires
        s.wf(),
        s.ticked(t),
    ensures
        (t.registers.STAT & 4 != 0) == (t.registers.LY == t.registers.LYC),
{
}

/// The quantum taken from `s` sets the status latch through a request
/// that succeeds.
pub open spec fn tick_fires(s: PPU) -> bool {
    let c = next_cycles(s.cycles as int);
    let line = c / 456;
    stat_fires(
        s.block_stat_irqs && line == s.registers.LY,
        stat_requested(line, c % 456, s.registers.LYC, s.registers.STAT),
    )
}

/// Number of quanta among the first `n` of `run` whose request succeeds.
pub open spec fn fires_in(run: Seq<PPU>, n: nat) -> nat
    decreases n,
{
    if n == 0 {
        0
    } else {
        fires_in(run, (n - 1) as nat) + (if tick_fires(run[n - 1]) {
            1nat
        } else {
            0nat
        })
    }
}

/// A successful request is what sets the status latch in a quantum.
pub proof fn lemma_tick_fires_sets_latch(s: PPU, t: PPU)
    requires
        s.wf(),
        s.ticked(t),
    ensures
        t.registers.interrupts.stat == (s.registers.interrupts.stat || tick_fires(s)),
        tick_fires(s) ==> t.block_stat_irqs,
{
}

/// However many status sources are enabled and raised, a run of quanta
/// that stays on one scanline (every state after the first shows the same
/// `LY`) sets the status latch at most once.
pub proof fn lemma_one_stat_interrupt_per_line(run: Seq<PPU>)
    requires
        run.len() >= 1,
        forall|i: int| 0 <= i < run.len() ==> (#[trigger] run[i]).wf(),
        forall|i: int| 0 <= i < run.len() - 1 ==> #[trigger] run[i].ticked(run[i + 1]),
        forall|i: int| 1 <= i < run.len() ==> (#[trigger] run[i]).registers.LY == run[1].registers.LY,
    ensures
        fires_in(run, (run.len() - 1) as nat) <= 1,
{
    lemma_fires_block(run, (run.len() - 1) as nat);
}

proof fn lemma_fires_block(run: Seq<PPU>, n: nat)
    requires
        n < run.len(),
        forall|i: int| 0 <= i < run.len() ==> (#[trigger] run[i]).wf(),
        forall|i: int| 0 <= i < run.len() - 1 ==> #[trigger] run[i].ticked(run[i + 1]),
        forall|i: int| 1 <= i < run.len() ==> (#[trigger] run[i]).registers.LY == run[1].registers.LY,
    ensures
        fires_in(run, n) <= 1,
        fires_in(run, n) == 1 ==> run[n as int].block_stat_irqs,
    decreases n,
{
    if n > 0 {
        let m = (n - 1) as nat;
        lemma_fires_block(run, m);
        let s = run[m as int];
        let t = run[m as int + 1];
        assert(s.ticked(t));
        if fires_in(run, m) == 1 {
            assert(m >= 1);
            assert(run[m as int].registers.LY == run[1].registers.LY);
            assert(t.registers.LY == next_cycles(s.cycles as int) / 456);
            assert(!tick_fires(s));
        }
    }
}

/// The vblank latch is set by a quantum exactly when `LY` moves from 143
/// to 144, and that is the quantum taken at cycle 65660; no other
/// quantum sets it.
pub proof fn lemma_vblank_once_per_frame(s: PPU, t: PPU)
    requires
        s.wf(),
        s.ticked(t),
    ensures
        t.registers.interrupts.vblank == (s.registers.interrupts.vblank || s.cycles == 144
            * LINE_CYCLES - 4),
        (s.registers.LY == 143 && t.registers.LY == 144) <==> s.cycles == 144 * LINE_CYCLES - 4,
{
}

/// Over any run of quanta that starts with the vblank latch clear (as
/// `draw` makes), the latch ends up set exactly when one of the quanta
/// started at cycle 65660, the one that brings `LY` to 144.
pub proof fn lemma_vblank_over_run(run: Seq<PPU>)
    requires
        run.len() >= 1,
        forall|i: int| 0 <= i < run.len() ==> (#[trigger] run[i]).wf(),
        forall|i: int| 0 <= i < run.len() - 1 ==> #[trigger] run[i].ticked(run[i + 1]),
        !run[0].registers.interrupts.vblank,
    ensures
        run.last().registers.interrupts.vblank <==> exists|i: int|
            0 <= i < run.len() - 1 && (#[trigger] run[i]).cycles == 144 * LINE_CYCLES - 4,
{
    lemma_vblank_prefix(run, (run.len() - 1) as nat);
}

proof fn lemma_vblank_prefix(run: Seq<PPU>, n: nat)
    requires
        n < run.len(),
        forall|i: int| 0 <= i < run.len() ==> (#[trigger] run[i]).wf(),
        forall|i: int| 0 <= i < run.len() - 1 ==> #[trigger] run[i].ticked(run[i + 1]),
        !run[0].registers.interrupts.vblank,
    ensures
        run[n as int].registers.interrupts.vblank <==> exists|i: int|
            0 <= i < n && (#[trigger] run[i]).cycles == 144 * LINE_CYCLES - 4,
    decreases n,
{
    if n > 0 {
        let m = (n - 1) as nat;
        lemma_vblank_prefix(run, m);
        assert(run[m as int].ticked(run[m as int + 1]));
        lemma_vblank_once_per_frame(run[m as int], run[m as int + 1]);
        if run[n as int].registers.interrupts.vblank {
            if !run[m as int].registers.interrupts.vblank {
                assert(run[m as int].cycles == 144 * LINE_CYCLES - 4);
            }
        }
        if exists|i: int| 0 <= i < n && (#[trigger] run[i]).cycles == 144 * LINE_CYCLES - 4 {
            let i = choose|i: int| 0 <= i < n && (#[trigger] run[i]).cycles == 144 * LINE_CYCLES - 4;
            if i < m {
                assert(run[m as int].registers.interrupts.vblank);
            }
        }
    }
}

/// The window places a pixel on a line exactly when it is drawn there and
/// `WX` is below the screen width; so with `WX` off the right edge the
/// window line counter does not advance.
pub proof fn lemma_window_counter(r: PPURegisters)
    requires
        r.WC < 255,
    ensures
        window_placed(r) <==> (window_on(r) && r.WX < W_WIDTH),
        after_line(r).WC == (if window_on(r) && r.WX < W_WIDTH {
            r.WC + 1
        } else {
            r.WC as int
        }),
{
    if window_on(r) && r.WX < W_WIDTH {
        let x: int = if r.WX >= 7 {
            r.WX - 7
        } else {
            0
        };
        assert(window_covers(r, x));
    }
    if window_placed(r) {
        let x = choose|x: int| 0 <= x < W_WIDTH && #[trigger] window_covers(r, x);
        assert(r.WX < W_WIDTH);
    }
}

/// When a quantum brings `LY` to `LYC` at offset 0 with the coincidence
/// source enabled, and no status interrupt has been raised on that line
/// yet, the coincidence bit is set and the status latch is raised.
pub proof fn lemma_coincidence_interrupt(s: PPU, t: PPU)
    requires
        s.wf(),
        s.ticked(t),
        next_cycles(s.cycles as int) % 456 == 0,
        next_cycles(s.cycles as int) / 456 == s.registers.LYC,
        s.registers.STAT & 0x40 != 0,
        next_cycles(s.cycles as int) / 456 != s.registers.LY || !s.block_stat_irqs,
    ensures
        t.registers.STAT & 4 != 0,
        t.registers.interrupts.stat,
        t.block_stat_irqs,
{
    assert(1u8 << 6u8 == 0x40u8) by (bit_vector);
}

/// Once a status interrupt was raised on a line, a quantum that stays on
/// that line raises none: the latch keeps its value.
pub proof fn lemma_suppressed_on_same_line(s: PPU, t: PPU)
    requires
        s.wf(),
        s.ticked(t),
        s.block_stat_irqs,
        next_cycles(s.cycles as int) / 456 == s.registers.LY,
    ensures
        !tick_fires(s),
        t.registers.interrupts.stat == s.registers.interrupts.stat,
        t.block_stat_irqs,
{
}

/// Screen column `x` of line `LY` samples the background at column
/// `(x + SCX) mod 256` and row `(SCY + LY) mod 256`: scrolling wraps.
pub proof fn lemma_background_wraps(r: PPURegisters, mem: Seq<u8>, x: int)
    requires
        0 <= x < W_WIDTH,
    ensures
        ({
            let u = (x + r.SCX) % 256;
            let v = (r.SCY + r.LY) % 256;
            let map = if r.LCDC & 0x08 != 0 {
                0x9C00int
            } else {
                0x9800int
            };
            bg_shade(r, mem, x) == tile_shade(r, mem, vram_at(mem, map + 32 * (v / 8) + u / 8), v % 8, u % 8)
                && 0 <= u < 256 && 0 <= v < 256
        }),
{
}

/// Reading back a written address gives the written value, but for `STAT`,
/// which keeps its mode, coincidence and top bits and takes bits 3-6 from
/// the write, and `LY`, which refuses writes.
pub proof fn lemma_write_read_round_trip(s: PPU, t: PPU, addr: u16, val: u8)
    requires
        s.wf(),
        PPU::writable(addr),
        s.written(t, addr, val),
    ensures
        addr != 0xFF41 ==> t.bus_read(addr) == Ok::<u8, PpuError>(val),
        addr == 0xFF41 ==> t.bus_read(addr) == Ok::<u8, PpuError>(
            (s.registers.STAT & 0x87) | (val & 0x78),
        ),
        addr == 0xFF41 ==> ((s.registers.STAT & 0x87) | (val & 0x78)) & 0x78 == val & 0x78,
        !PPU::writable(0xFF44),
{
    let st = s.registers.STAT;
    assert(((st & 0x87) | (val & 0x78)) & 0x78 == val & 0x78) by (bit_vector);
}

} // verus!
