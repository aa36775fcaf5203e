//! The chip itself: bus access, the scheduler step, the compositor, and
//! the frame pump.

use vstd::prelude::*;

use crate::compositor::{
    after_line, bg_placed_below, drawn_line, lemma_bg_column_step, lemma_bg_sample,
    lemma_bit_planes, lemma_win_column_step, palette_shade, pixel_of, sheet_pixel, tile_row_addr,
    vram_at, win_placed_below, win_shade, window_covers, window_on, window_placed,
};
use crate::display::{Shade, W_HEIGHT, W_WIDTH};
use crate::registers::{
    in_oam, in_vram, register_read, register_write, PPUInterrupts, PPURegisters, PpuError,
};
use crate::timing::{
    lemma_coincidence_bit, lemma_enable_bits_kept, lemma_top_bit_kept, lemma_mode_bits, lemma_next_cycles,
    mode_after, next_cycles, stat_enabled, stat_fires, stat_requested, timing_ok, cycles_after,
    frames_after, FRAME_CYCLES, LINE_CYCLES,
};

verus! {

/// Number of bytes of video memory.
pub const VRAM_SIZE: usize = 0x2000;

/// Number of bytes of object-attribute memory.
pub const OAM_SIZE: usize = 0xA0;

/// The chip: register bank, video and object memory, the frame buffer
/// (row-major, `W_WIDTH` by `W_HEIGHT`) and the timing state.
pub struct PPU {
    pub memory: Vec<u8>,
    pub oam: Vec<u8>,
    pub viewport: Vec<Shade>,
    pub registers: PPURegisters,
    pub enable_display_events: bool,
    pub block_stat_irqs: bool,
    pub cycles: u64,
}

impl PPU {
    /// The chip's standing invariant.
    pub open spec fn wf(&self) -> bool {
        &&& self.sized()
        &&& timing_ok(self.registers, self.cycles as int)
        &&& self.registers.STAT & 0x80 != 0
    }

    /// `next` is the chip after one scheduler step taken at the cycle
    /// count `self.cycles`.
    pub open spec fn stepped(&self, next: PPU) -> bool {
        let r0 = self.registers;
        let r1 = next.registers;
        let line = self.cycles / 456;
        let off = self.cycles % 456;
        let changed = line != r0.LY;
        let blocked = self.block_stat_irqs && !changed;
        let wc = if changed && line == 0 {
            0
        } else {
            r0.WC
        };
        let fires = stat_fires(blocked, stat_requested(line as int, off as int, r0.LYC, r0.STAT));
        let draws = line < 144 && off == 80;
        let r_line = PPURegisters { LY: line as u8, WC: wc, ..r0 };
        &&& r1.LY == line
        &&& (r1.STAT & 4 != 0) == (r1.LY == r1.LYC)
        &&& r1.STAT & 0xF8 == r0.STAT & 0xF8
        &&& r1.STAT & 3 == mode_after(line as int, off as int, r0.STAT & 3)
        &&& next.block_stat_irqs == (blocked || fires)
        &&& r1.interrupts.stat == (r0.interrupts.stat || fires)
        &&& r1.interrupts.vblank == (r0.interrupts.vblank || (line == 144 && off == 0))
        &&& r1.WC == (if draws {
            after_line(r_line).WC
        } else {
            wc
        })
        &&& next.viewport@ == (if draws {
            drawn_line(self.viewport@, r_line, self.memory@)
        } else {
            self.viewport@
        })
        &&& r1.LCDC == r0.LCDC && r1.LYC == r0.LYC && r1.SCY == r0.SCY && r1.SCX == r0.SCX
        &&& r1.WY == r0.WY && r1.WX == r0.WX && r1.BGP == r0.BGP && r1.OBP0 == r0.OBP0
        &&& r1.OBP1 == r0.OBP1
        &&& next.memory@ == self.memory@
        &&& next.oam@ == self.oam@
        &&& next.enable_display_events == self.enable_display_events
        &&& next.cycles == self.cycles
    }

    /// `next` is the chip after one quantum of 4 cycles: the counter moves
    /// on (wrapping at a whole frame, which also allows one display-event poll)
    /// and the scheduler steps.
    pub open spec fn ticked(&self, next: PPU) -> bool {
        let c = next_cycles(self.cycles as int);
        let wrapped = self.cycles + 4 >= FRAME_CYCLES;
        (PPU {
            cycles: c as u64,
            enable_display_events: self.enable_display_events || wrapped,
            ..*self
        }).stepped(next)
    }

    /// The memories and the frame buffer have their fixed sizes.
    pub open spec fn sized(&self) -> bool {
        &&& self.memory@.len() == VRAM_SIZE
        &&& self.oam@.len() == OAM_SIZE
        &&& self.viewport@.len() == W_WIDTH * W_HEIGHT
    }

    /// Byte `addr` of the video-memory window.
    pub open spec fn vram(&self, addr: int) -> u8 {
        self.memory@[addr - 0x8000]
    }

    /// What a bus read of `addr` returns.
    pub open spec fn bus_read(&self, addr: u16) -> Result<u8, PpuError> {
        if in_vram(addr) {
            Ok(self.memory@[addr - 0x8000])
        } else if in_oam(addr) {
            Ok(self.oam@[addr - 0xFE00])
        } else {
            match register_read(self.registers, addr) {
                Some(v) => Ok(v),
                None => Err(PpuError::AddressingFault { addr }),
            }
        }
    }

    /// True when a bus write to `addr` is accepted.
    pub open spec fn writable(addr: u16) -> bool {
        in_vram(addr) || in_oam(addr) || register_write(PPURegisters::reset(), addr, 0).is_some()
    }

    /// `next` is `self` after the bus wrote `val` to the writable `addr`.
    pub open spec fn written(&self, next: PPU, addr: u16, val: u8) -> bool {
        &&& next.memory@ == (if in_vram(addr) {
            self.memory@.update(addr - 0x8000, val)
        } else {
            self.memory@
        })
        &&& next.oam@ == (if in_oam(addr) {
            self.oam@.update(addr - 0xFE00, val)
        } else {
            self.oam@
        })
        &&& next.registers == (if in_vram(addr) || in_oam(addr) {
            self.registers
        } else {
            register_write(self.registers, addr, val).unwrap()
        })
        &&& next.viewport@ == self.viewport@
        &&& next.enable_display_events == self.enable_display_events
        &&& next.block_stat_irqs == self.block_stat_irqs
        &&& next.cycles == self.cycles
    }
}

impl PPU {
    /// A powered-on chip: memories zeroed, frame buffer all lightest
    /// shade, registers at their reset values, cycle counter at zero.
    pub fn new() -> (r: Self)
        ensures
            r.wf(),
            r.memory@ == Seq::new(VRAM_SIZE as nat, |i: int| 0u8),
            r.oam@ == Seq::new(OAM_SIZE as nat, |i: int| 0u8),
            r.viewport@ == Seq::new((W_WIDTH * W_HEIGHT) as nat, |i: int| Shade::White),
            r.registers == PPURegisters::reset(),
            !r.enable_display_events,
            !r.block_stat_irqs,
            r.cycles == 0,
    {
        let memory: Vec<u8> = vec![0u8; VRAM_SIZE];
        let oam: Vec<u8> = vec![0u8; OAM_SIZE];
        let viewport: Vec<Shade> = vec![Shade::White; W_WIDTH * W_HEIGHT];
        proof {
            assert(memory@ =~= Seq::new(VRAM_SIZE as nat, |i: int| 0u8));
            assert(oam@ =~= Seq::new(OAM_SIZE as nat, |i: int| 0u8));
            assert(viewport@ =~= Seq::new((W_WIDTH * W_HEIGHT) as nat, |i: int| Shade::White));
            assert(0x80u8 & 0x80u8 != 0) by (bit_vector);
        }
        PPU {
            memory,
            oam,
            viewport,
            registers: PPURegisters::new(),
            enable_display_events: false,
            block_stat_irqs: false,
            cycles: 0,
        }
    }

    fn vram_read(&self, addr: u16) -> (r: u8)
        requires
            self.sized(),
            in_vram(addr),
        ensures
            r == self.vram(addr as int),
    {
        self.memory[(addr - 0x8000) as usize]
    }

    /// Reads the byte the bus sees at `addr`.
    pub fn read_byte(&self, addr: u16) -> (r: Result<u8, PpuError>)
        requires
            self.sized(),
        ensures
            r == self.bus_read(addr),
    {
        if 0x8000 <= addr && addr <= 0x9FFF {
            Ok(self.vram_read(addr))
        } else if 0xFE00 <= addr && addr <= 0xFE9F {
            Ok(self.oam[(addr - 0xFE00) as usize])
        } else {
            match addr {
                0xFF40 => Ok(self.registers.LCDC),
                0xFF41 => Ok(self.registers.STAT),
                0xFF42 => Ok(self.registers.SCY),
                0xFF43 => Ok(self.registers.SCX),
                0xFF44 => Ok(self.registers.LY),
                0xFF45 => Ok(self.registers.LYC),
                0xFF47 => Ok(self.registers.BGP),
                0xFF48 => Ok(self.registers.OBP0),
                0xFF49 => Ok(self.registers.OBP1),
                0xFF4A => Ok(self.registers.WY),
                0xFF4B => Ok(self.registers.WX),
                _ => Err(PpuError::AddressingFault { addr }),
            }
        }
    }

    /// Writes `val` where the bus puts it at `addr`. Writes to `STAT` keep
    /// bits 0-2 and 7 and take bits 3-6 from `val`; `LY` and unmapped
    /// addresses refuse the write and leave the chip unchanged.
    pub fn write_byte(&mut self, addr: u16, val: u8) -> (r: Result<(), PpuError>)
        requires
            old(self).wf(),
        ensures
            final(self).wf(),
            r is Ok <==> PPU::writable(addr),
            r is Ok ==> old(self).written(*final(self), addr, val),
            r is Err ==> r == Err::<(), PpuError>(PpuError::AddressingFault { addr }) && *final(self)
                == *old(self),
    {
        if 0x8000 <= addr && addr <= 0x9FFF {
            self.memory.set((addr - 0x8000) as usize, val);
        } else if 0xFE00 <= addr && addr <= 0xFE9F {
            self.oam.set((addr - 0xFE00) as usize, val);
        } else {
            match addr {
                0xFF40 => self.registers.LCDC = val,
                0xFF41 => {
                    let st: u8 = self.registers.STAT;
                    self.registers.STAT = (st & 0x87) | (val & 0x78);
                    assert(((st & 0x87) | (val & 0x78)) & 0x80 == st & 0x80) by (bit_vector);
                },
                0xFF42 => self.registers.SCY = val,
                0xFF43 => self.registers.SCX = val,
                0xFF45 => self.registers.LYC = val,
                0xFF47 => self.registers.BGP = val,
                0xFF48 => self.registers.OBP0 = val,
                0xFF49 => self.registers.OBP1 = val,
                0xFF4A => self.registers.WY = val,
                0xFF4B => self.registers.WX = val,
                _ => return Err(PpuError::AddressingFault { addr }),
            }
        }
        Ok(())
    }

    /// Reports the vblank and status latches, and clears both.
    pub fn check_interrupts(&mut self) -> (r: (bool, bool))
        requires
            old(self).wf(),
        ensures
            final(self).wf(),
            r == (old(self).registers.interrupts.vblank, old(self).registers.interrupts.stat),
            *final(self) == (PPU {
                registers: PPURegisters {
                    interrupts: PPUInterrupts { vblank: false, stat: false },
                    ..old(self).registers
                },
                ..*old(self)
            }),
    {
        let res = (self.registers.interrupts.vblank, self.registers.interrupts.stat);
        self.registers.interrupts.vblank = false;
        self.registers.interrupts.stat = false;
        res
    }

    /// Maps a two-bit colour index through the background palette.
    pub fn decode_palette(&self, color: u8) -> (r: Result<Shade, PpuError>)
        ensures
            color < 4 ==> r == Ok::<Shade, PpuError>(palette_shade(self.registers.BGP, color)),
            color >= 4 ==> r == Err::<Shade, PpuError>(PpuError::PaletteDecodeFault { color }),
    {
        if color >= 4 {
            return Err(PpuError::PaletteDecodeFault { color });
        }
        Ok(self.shade_for(color))
    }

    /// Renders the 256 tiles stored from `base` as a row-major 256x256
    /// sheet through the background palette, for inspecting tile data.
    pub fn dump_tiles(&self, base: u16) -> (r: Vec<Shade>)
        requires
            self.sized(),
            0x8000 <= base <= 0x9000,
        ensures
            r@.len() == 256 * 256,
            forall|k: int|
                0 <= k < 256 * 256 ==> #[trigger] r@[k] == sheet_pixel(
                    self.registers,
                    self.memory@,
                    base as int,
                    k / 256,
                    k % 256,
                ),
    {
        let mut sheet: Vec<Shade> = vec![Shade::White; 256 * 256];
        let mut y: usize = 0;
        while y < 64
            invariant
                y <= 64,
                self.sized(),
                0x8000 <= base <= 0x9000,
                sheet@.len() == 256 * 256,
                forall|k: int|
                    0 <= k < 256 * 256 ==> #[trigger] sheet@[k] == (if k < 256 * y {
                        sheet_pixel(self.registers, self.memory@, base as int, k / 256, k % 256)
                    } else {
                        Shade::White
                    }),
            decreases 64 - y,
        {
            let mut x: usize = 0;
            while x < 256
                invariant
                    y < 64,
                    x <= 256,
                    self.sized(),
                    0x8000 <= base <= 0x9000,
                    sheet@.len() == 256 * 256,
                    forall|k: int|
                        0 <= k < 256 * 256 ==> #[trigger] sheet@[k] == (if k < 256 * y + x {
                            sheet_pixel(self.registers, self.memory@, base as int, k / 256, k % 256)
                        } else {
                            Shade::White
                        }),
                decreases 256 - x,
            {
                let tile_addr: u16 = base + 16 * (32 * (y / 8) + x / 8) as u16;
                let row_addr: u16 = tile_addr + 2 * (y % 8) as u16;
                let hi = self.vram_read(row_addr + 1);
                let lo = self.vram_read(row_addr);
                let k: u8 = (7 - x % 8) as u8;
                let v: u8 = (((hi >> k) & 1) << 1) | ((lo >> k) & 1);
                proof {
                    lemma_bit_planes(lo, hi, k);
                    assert((256 * y + x) / 256 == y);
                    assert((256 * y + x) % 256 == x);
                }
                let shade = self.shade_for(v);
                sheet.set(256 * y + x, shade);
                x += 1;
            }
            y += 1;
        }
        sheet
    }

    fn shade_for(&self, color: u8) -> (r: Shade)
        requires
            color < 4,
        ensures
            r == palette_shade(self.registers.BGP, color),
    {
        let value = (self.registers.BGP >> (2 * color)) & 0b11;
        match value {
            0 => Shade::White,
            1 => Shade::LightGray,
            2 => Shade::DarkGray,
            _ => Shade::Black,
        }
    }

    /// Takes the one poll of display-sink events that each completed frame
    /// allows: true at most once per frame.
    pub fn take_event_poll(&mut self) -> (r: bool)
        requires
            old(self).wf(),
        ensures
            final(self).wf(),
            r == old(self).enable_display_events,
            *final(self) == (PPU { enable_display_events: false, ..*old(self) }),
    {
        let r = self.enable_display_events;
        self.enable_display_events = false;
        r
    }

    /// Advances the chip by one quantum of 4 cycles. Returns whether a
    /// frame was completed, in which case the frame buffer holds it until
    /// the scheduler reaches line 0's draw mode.
    pub fn tick(&mut self) -> (frame_done: bool)
        requires
            old(self).wf(),
        ensures
            final(self).wf(),
            old(self).ticked(*final(self)),
            final(self).cycles == next_cycles(old(self).cycles as int),
            frame_done == (old(self).cycles + 4 >= FRAME_CYCLES),
    {
        let ghost prev = self.cycles as int;
        self.cycles += 4;
        let mut frame_done = false;
        if self.cycles >= FRAME_CYCLES {
            self.cycles -= FRAME_CYCLES;
            self.enable_display_events = true;
            frame_done = true;
        }
        let ghost before = *self;
        self.step(Ghost(prev));
        proof {
            lemma_top_bit_kept(before.registers.STAT, self.registers.STAT);
        }
        frame_done
    }

    /// Runs the chip for `cycles_passed` cycles, in quanta of 4 (a
    /// remainder below 4 is dropped). Returns how many frames were
    /// completed.
    pub fn draw(&mut self, cycles_passed: u64) -> (frames: u64)
        requires
            old(self).wf(),
        ensures
            final(self).wf(),
            exists|run: Seq<PPU>|
                {
                    &&& run.len() == cycles_passed / 4 + 1
                    &&& run[0] == *old(self)
                    &&& run.last() == *final(self)
                    &&& forall|i: int|
                        0 <= i < cycles_passed / 4 ==> #[trigger] run[i].ticked(run[i + 1])
                },
            final(self).cycles == cycles_after(old(self).cycles as int, (cycles_passed / 4) as nat),
            frames == frames_after(old(self).cycles as int, (cycles_passed / 4) as nat),
            final(self).enable_display_events == (old(self).enable_display_events || frames > 0),
    {
        let n: u64 = cycles_passed / 4;
        let mut k: u64 = 0;
        let mut frames: u64 = 0;
        let ghost mut run: Seq<PPU> = seq![*self];
        while k < n
            invariant
                k <= n,
                n == cycles_passed / 4,
                frames <= k,
                self.wf(),
                run.len() == k + 1,
                run[0] == *old(self),
                run.last() == *self,
                forall|i: int| 0 <= i < k ==> #[trigger] run[i].ticked(run[i + 1]),
                self.cycles == cycles_after(old(self).cycles as int, k as nat),
                frames == frames_after(old(self).cycles as int, k as nat),
                self.enable_display_events == (old(self).enable_display_events || frames > 0),
            decreases n - k,
        {
            let ghost before = *self;
            if self.tick() {
                frames += 1;
            }
            proof {
                run = run.push(*self);
                assert(run[k as int] == before);
            }
            k += 1;
        }
        frames
    }

    /// One scheduler step at the cycle count just reached from `prev`:
    /// derives the scanline and the offset in it, updates `LY`, the
    /// coincidence bit and the mode, raises interrupts, and composites the
    /// line on entering draw mode.
    fn step(&mut self, Ghost(prev): Ghost<int>)
        requires
            old(self).sized(),
            timing_ok(old(self).registers, prev),
            old(self).cycles == next_cycles(prev),
        ensures
            final(self).sized(),
            timing_ok(final(self).registers, final(self).cycles as int),
            old(self).stepped(*final(self)),
    {
        proof {
            lemma_next_cycles(prev);
        }
        let ghost s0 = *self;
        let clocks = self.cycles % LINE_CYCLES;
        let scanline = (self.cycles / LINE_CYCLES) as u8;
        // Start of a line
        if scanline != self.registers.LY {
            self.block_stat_irqs = false;
            if scanline == 0 {
                self.registers.WC = 0;
            }
        }
        self.registers.LY = scanline;
        let ghost r_line = self.registers;
        // LY == LYC
        let coincidence = self.registers.LY == self.registers.LYC;
        if coincidence && clocks == 0 {
            self.req_stat_interrupt(6);
        }
        let ghost s_mid = self.registers.STAT;
        self.registers.STAT = (self.registers.STAT & 0xFB) | (if coincidence {
            4
        } else {
            0
        });
        proof {
            lemma_coincidence_bit(s_mid, coincidence);
            lemma_enable_bits_kept(s0.registers.STAT, self.registers.STAT, 3);
            lemma_enable_bits_kept(s0.registers.STAT, self.registers.STAT, 4);
            lemma_enable_bits_kept(s0.registers.STAT, self.registers.STAT, 5);
            lemma_mode_bits(self.registers.STAT, 0);
            lemma_mode_bits(self.registers.STAT, 1);
            lemma_mode_bits(self.registers.STAT, 2);
            lemma_mode_bits(self.registers.STAT, 3);
        }
        let ghost before_mode = *self;
        // Mode switching
        if self.registers.LY < 144 {
            match clocks {
                0 => self.set_mode(2),
                80 => {
                    self.set_mode(3);
                    let ghost r_draw = self.registers;
                    proof {
                        assert forall|x: int| #[trigger] window_covers(r_draw, x) == window_covers(r_line, x) by {}
                        if window_placed(r_draw) {
                            let x = choose|x: int| 0 <= x < W_WIDTH && #[trigger] window_covers(r_draw, x);
                            assert(window_covers(r_line, x));
                        }
                        if window_placed(r_line) {
                            let x = choose|x: int| 0 <= x < W_WIDTH && #[trigger] window_covers(r_line, x);
                            assert(window_covers(r_draw, x));
                        }
                    }
                    self.draw_line();
                    proof {
                        assert(drawn_line(s0.viewport@, r_draw, s0.memory@) =~= drawn_line(
                            s0.viewport@,
                            r_line,
                            s0.memory@,
                        ));
                    }
                },
                252 => self.set_mode(0),
                _ => {},
            }
        } else if self.registers.LY == 144 && clocks == 0 {
            self.registers.interrupts.vblank = true;
            self.set_mode(1);
        }
    }

    /// Asks for a status interrupt from source `bit`; it is raised only if
    /// that source is enabled and none was raised yet on this scanline.
    fn req_stat_interrupt(&mut self, bit: u8)
        ensures
            ({
                let fires = stat_fires(old(self).block_stat_irqs, stat_enabled(old(self).registers.STAT, bit));
                *final(self) == (PPU {
                    block_stat_irqs: old(self).block_stat_irqs || fires,
                    registers: PPURegisters {
                        interrupts: PPUInterrupts {
                            stat: old(self).registers.interrupts.stat || fires,
                            ..old(self).registers.interrupts
                        },
                        ..old(self).registers
                    },
                    ..*old(self)
                })
            }),
    {
        if !self.block_stat_irqs && 3 <= bit && bit <= 6 && (self.registers.STAT & (1 << bit)) != 0 {
            self.block_stat_irqs = true;
            self.registers.interrupts.stat = true;
        }
    }

    /// Puts `mode` in the mode bits of `STAT`; entering modes 0, 1 and 2
    /// asks for the matching status interrupt.
    fn set_mode(&mut self, mode: u8)
        requires
            mode < 4,
        ensures
            ({
                let s = old(self).registers.STAT;
                let fires = stat_fires(old(self).block_stat_irqs, mode < 3 && stat_enabled(s, (mode + 3) as u8));
                *final(self) == (PPU {
                    block_stat_irqs: old(self).block_stat_irqs || fires,
                    registers: PPURegisters {
                        STAT: (s & 0xFC) | mode,
                        interrupts: PPUInterrupts {
                            stat: old(self).registers.interrupts.stat || fires,
                            ..old(self).registers.interrupts
                        },
                        ..old(self).registers
                    },
                    ..*old(self)
                })
            }),
    {
        let ghost s = self.registers.STAT;
        self.registers.STAT = (self.registers.STAT & 0xFC) | mode;
        if mode < 3 {
            proof {
                lemma_mode_bits(s, mode);
                lemma_enable_bits_kept(s, self.registers.STAT, (mode + 3) as u8);
            }
            self.req_stat_interrupt(mode + 3);
        }
    }

    /// Composites line `LY` of the frame buffer from the background and
    /// window layers. Sprites are not drawn.
    #[verifier::spinoff_prover]
    #[verifier::rlimit(30)]
    fn draw_line(&mut self)
        requires
            old(self).sized(),
            old(self).registers.LY < W_HEIGHT,
            old(self).registers.WC < 255,
        ensures
            final(self).sized(),
            final(self).viewport@ == drawn_line(
                old(self).viewport@,
                old(self).registers,
                old(self).memory@,
            ),
            final(self).registers == after_line(old(self).registers),
            final(self).memory@ == old(self).memory@,
            final(self).oam@ == old(self).oam@,
            final(self).enable_display_events == old(self).enable_display_events,
            final(self).block_stat_irqs == old(self).block_stat_irqs,
            final(self).cycles == old(self).cycles,
    {
        let ghost r = self.registers;
        let ghost mem = self.memory@;
        let ghost v0 = self.viewport@;
        let row_start: usize = self.registers.LY as usize * W_WIDTH;
        if self.registers.LCDC & 0x80 != 0 {
            if self.registers.LCDC & 1 != 0 {
                let bg_tilemap: u16 = if self.registers.LCDC & 0x08 != 0 {
                    0x9C00
                } else {
                    0x9800
                };
                let bg_y: u8 = ((self.registers.SCY as u16 + self.registers.LY as u16) % 256) as u8;
                let scx: usize = self.registers.SCX as usize;
                let mut i: usize = 0;
                while i < 32
                    invariant
                        0 <= i <= 32,
                        self.sized(),
                        self.registers == r,
                        self.memory@ == mem,
                        self.oam@ == old(self).oam@,
                        self.enable_display_events == old(self).enable_display_events,
                        self.block_stat_irqs == old(self).block_stat_irqs,
                        self.cycles == old(self).cycles,
                        r.LCDC & 0x80 != 0,
                        r.LCDC & 1 != 0,
                        row_start == r.LY * W_WIDTH,
                        r.LY < W_HEIGHT,
                        scx == r.SCX,
                        bg_y == (r.SCY + r.LY) % 256,
                        bg_tilemap == (if r.LCDC & 0x08 != 0 { 0x9C00int } else { 0x9800int }),
                        bg_placed_below(v0, self.viewport@, r, mem, row_start as int, 8 * i),
                    decreases 32 - i,
                {
                    let tile = self.vram_read(bg_tilemap + 32 * (bg_y / 8) as u16 + i as u16);
                    let row = self.decode_tile_row(tile, bg_y % 8);
                    let mut j: usize = 0;
                    while j < 8
                        invariant
                            0 <= i < 32,
                            0 <= j <= 8,
                            self.sized(),
                            self.registers == r,
                            self.memory@ == mem,
                            self.oam@ == old(self).oam@,
                            self.enable_display_events == old(self).enable_display_events,
                            self.block_stat_irqs == old(self).block_stat_irqs,
                            self.cycles == old(self).cycles,
                            row_start == r.LY * W_WIDTH,
                            r.LY < W_HEIGHT,
                            scx == r.SCX,
                            bg_y == (r.SCY + r.LY) % 256,
                            bg_tilemap == (if r.LCDC & 0x08 != 0 { 0x9C00int } else { 0x9800int }),
                            tile == vram_at(mem, bg_tilemap + 32 * (bg_y / 8) + i),
                            forall|c: int|
                                0 <= c < 8 ==> #[trigger] row@[c] == pixel_of(
                                    vram_at(mem, tile_row_addr(r.LCDC, tile, (bg_y % 8) as int)),
                                    vram_at(mem, tile_row_addr(r.LCDC, tile, (bg_y % 8) as int) + 1),
                                    c,
                                ) && row@[c] < 4,
                            bg_placed_below(v0, self.viewport@, r, mem, row_start as int, 8 * i + j),
                        decreases 8 - j,
                    {
                        let ghost prev = self.viewport@;
                        let bg_x: usize = (8 * i + j + 256 - scx) % 256;
                        if bg_x < W_WIDTH {
                            let shade = self.shade_for(row[j]);
                            proof {
                                lemma_bg_sample(r, mem, i as int, j as int, tile, row@[j as int]);
                            }
                            self.viewport.set(row_start + bg_x, shade);
                        }
                        proof {
                            lemma_bg_column_step(v0, prev, self.viewport@, r, mem, row_start as int, 8 * i + j);
                        }
                        j += 1;
                    }
                    i += 1;
                }
            }
            let ghost v1 = self.viewport@;
            if self.registers.LCDC & 0x20 != 0 && self.registers.LY >= self.registers.WY {
                let win_tilemap: u16 = if self.registers.LCDC & 0x40 != 0 {
                    0x9C00
                } else {
                    0x9800
                };
                let wc: u8 = self.registers.WC;
                let wx: usize = self.registers.WX as usize;
                let mut window_visible = false;
                let mut i: usize = 0;
                while i < 32
                    invariant
                        0 <= i <= 32,
                        self.sized(),
                        self.registers == r,
                        self.memory@ == mem,
                        self.oam@ == old(self).oam@,
                        self.enable_display_events == old(self).enable_display_events,
                        self.block_stat_irqs == old(self).block_stat_irqs,
                        self.cycles == old(self).cycles,
                        window_on(r),
                        row_start == r.LY * W_WIDTH,
                        r.LY < W_HEIGHT,
                        wx == r.WX,
                        wc == r.WC,
                        win_tilemap == (if r.LCDC & 0x40 != 0 { 0x9C00int } else { 0x9800int }),
                        window_visible == (wx < W_WIDTH && 8 * i > 0 && 8 * i + wx > 7),
                        win_placed_below(v1, self.viewport@, r, mem, row_start as int, 8 * i),
                    decreases 32 - i,
                {
                    let tile = self.vram_read(win_tilemap + 32 * (wc / 8) as u16 + i as u16);
                    let row = self.decode_tile_row(tile, wc % 8);
                    let mut j: usize = 0;
                    while j < 8
                        invariant
                            0 <= i < 32,
                            0 <= j <= 8,
                            self.sized(),
                            self.registers == r,
                            self.memory@ == mem,
                            self.oam@ == old(self).oam@,
                            self.enable_display_events == old(self).enable_display_events,
                            self.block_stat_irqs == old(self).block_stat_irqs,
                            self.cycles == old(self).cycles,
                            window_on(r),
                            row_start == r.LY * W_WIDTH,
                            r.LY < W_HEIGHT,
                            wx == r.WX,
                            wc == r.WC,
                            win_tilemap == (if r.LCDC & 0x40 != 0 { 0x9C00int } else { 0x9800int }),
                            tile == vram_at(mem, win_tilemap + 32 * (wc / 8) + i),
                            forall|c: int|
                                0 <= c < 8 ==> #[trigger] row@[c] == pixel_of(
                                    vram_at(mem, tile_row_addr(r.LCDC, tile, (wc % 8) as int)),
                                    vram_at(mem, tile_row_addr(r.LCDC, tile, (wc % 8) as int) + 1),
                                    c,
                                ) && row@[c] < 4,
                            window_visible == (wx < W_WIDTH && 8 * i + j > 0 && 8 * i + j + wx > 7),
                            win_placed_below(v1, self.viewport@, r, mem, row_start as int, 8 * i + j),
                        decreases 8 - j,
                    {
                        let ghost prev = self.viewport@;
                        let win_x: usize = 8 * i + j + wx;
                        if win_x >= 7 && win_x < W_WIDTH {
                            window_visible = true;
                            let shade = self.shade_for(row[j]);
                            proof {
                                assert((8 * i + j) / 8 == i);
                                assert((8 * i + j) % 8 == j);
                                assert(window_covers(r, win_x - 7));
                                assert(shade == win_shade(r, mem, win_x - 7));
                            }
                            self.viewport.set(row_start + win_x - 7, shade);
                        }
                        proof {
                            lemma_win_column_step(v1, prev, self.viewport@, r, mem, row_start as int, 8 * i + j);
                        }
                        j += 1;
                    }
                    i += 1;
                }
                proof {
                    if wx < W_WIDTH {
                        let x: int = if wx >= 7 { wx - 7 } else { 0 };
                        assert(window_covers(r, x));
                    }
                    if window_placed(r) {
                        let x = choose|x: int| 0 <= x < W_WIDTH && #[trigger] window_covers(r, x);
                        assert(wx < W_WIDTH);
                    }
                }
                if window_visible {
                    self.registers.WC += 1;
                }
            } else {
                assert(!window_placed(r));
            }
        } else {
            assert(!window_placed(r));
        }
        proof {
            assert(self.viewport@ =~= drawn_line(v0, r, mem));
        }
    }

    /// The eight colour indices of row `row_num` of tile `tile_num`,
    /// leftmost pixel first.
    pub fn decode_tile_row(&self, tile_num: u8, row_num: u8) -> (r: [u8; 8])
        requires
            self.sized(),
        ensures
            forall|j: int|
                0 <= j < 8 ==> #[trigger] r@[j] == pixel_of(
                    self.vram(tile_row_addr(self.registers.LCDC, tile_num, row_num as int)),
                    self.vram(tile_row_addr(self.registers.LCDC, tile_num, row_num as int) + 1),
                    j,
                ) && r@[j] < 4,
    {
        let mut row: [u8; 8] = [0u8; 8];
        let base: u16 = if self.registers.LCDC & 0x10 == 0 && tile_num <= 0x80 {
            0x9000
        } else {
            0x8000
        };
        let tile_row_offset: u16 = base + tile_num as u16 * 16 + 2 * row_num as u16;
        assert(tile_row_offset == tile_row_addr(self.registers.LCDC, tile_num, row_num as int));
        let hi = self.vram_read(tile_row_offset + 1);
        let lo = self.vram_read(tile_row_offset);
        let mut i: usize = 0;
        while i < 8
            invariant
                0 <= i <= 8,
                row@.len() == 8,
                forall|j: int| 8 - i <= j < 8 ==> #[trigger] row@[j] == pixel_of(lo, hi, j) && row@[j] < 4,
            decreases 8 - i,
        {
            let k: u8 = i as u8;
            let v: u8 = (((hi >> k) & 1) << 1) | ((lo >> k) & 1);
            proof {
                lemma_bit_planes(lo, hi, k);
            }
            row[7 - i] = v;
            i += 1;
        }
        assert(forall|j: int| 0 <= j < 8 ==> #[trigger] row@[j] == pixel_of(lo, hi, j));
        row
    }
}

} // verus!
