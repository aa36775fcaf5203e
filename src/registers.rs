//! The register bank, its reset values, and the bus map of its registers.

#![allow(non_snake_case)]
use vstd::prelude::*;

verus! {

/// A fault that the chip reports instead of crashing the session.
#[derive(Clone, Copy, Debug, PartialEq, Eq, Structural)]
pub enum PpuError {
    /// The bus touched an address that the chip does not map (or, for a
    /// write, one that is read-only).
    AddressingFault { addr: u16 },
    /// A colour index outside the two-bit range reached the palette.
    PaletteDecodeFault { color: u8 },
}

/// The two interrupt latches the chip raises for the CPU.
#[derive(Clone, Copy, Debug, PartialEq, Eq, Structural)]
pub struct PPUInterrupts {
    pub vblank: bool,
    pub stat: bool,
}

/// The chip's register bank.
#[derive(Clone, Copy, Debug, PartialEq, Eq, Structural)]
pub struct PPURegisters {
    pub LCDC: u8,
    pub LY: u8,
    pub LYC: u8,
    pub STAT: u8,
    pub SCY: u8,
    pub SCX: u8,
    pub WY: u8,
    pub WX: u8,
    /// Internal window line counter; not reachable from the bus.
    pub WC: u8,
    pub BGP: u8,
    pub OBP0: u8,
    pub OBP1: u8,
    pub interrupts: PPUInterrupts,
}

impl PPURegisters {
    /// The register bank at power-on.
    pub open spec fn reset() -> PPURegisters {
        PPURegisters {
            LCDC: 0,
            LY: 0,
            LYC: 0,
            STAT: 0x80,
            SCY: 0,
            SCX: 0,
            WY: 0,
            WX: 0,
            WC: 0,
            BGP: 0,
            OBP0: 0,
            OBP1: 0,
            interrupts: PPUInterrupts { vblank: false, stat: false },
        }
    }

    /// Reset values: everything zero but the fixed top bit of `STAT`.
    pub fn new() -> (r: Self)
        ensures
            r == PPURegisters::reset(),
    {
        PPURegisters {
            LCDC: 0,
            LY: 0,
            LYC: 0,
            STAT: 0x80,
            SCY: 0,
            SCX: 0,
            WY: 0,
            WX: 0,
            WC: 0,
            BGP: 0,
            OBP0: 0,
            OBP1: 0,
            interrupts: PPUInterrupts { vblank: false, stat: false },
        }
    }
}

/// True when `addr` falls in the video-memory window.
pub open spec fn in_vram(addr: u16) -> bool {
    0x8000 <= addr <= 0x9FFF
}

/// True when `addr` falls in the object-attribute window.
pub open spec fn in_oam(addr: u16) -> bool {
    0xFE00 <= addr <= 0xFE9F
}

/// The register bank after the bus writes `val` to `addr`; `None` where
/// no register at `addr` takes writes.
pub open spec fn register_write(r: PPURegisters, addr: u16, val: u8) -> Option<PPURegisters> {
    if addr == 0xFF40 {
        Some(PPURegisters { LCDC: val, ..r })
    } else if addr == 0xFF41 {
        Some(PPURegisters { STAT: (r.STAT & 0x87) | (val & 0x78), ..r })
    } else if addr == 0xFF42 {
        Some(PPURegisters { SCY: val, ..r })
    } else if addr == 0xFF43 {
        Some(PPURegisters { SCX: val, ..r })
    } else if addr == 0xFF45 {
        Some(PPURegisters { LYC: val, ..r })
    } else if addr == 0xFF47 {
        Some(PPURegisters { BGP: val, ..r })
    } else if addr == 0xFF48 {
        Some(PPURegisters { OBP0: val, ..r })
    } else if addr == 0xFF49 {
        Some(PPURegisters { OBP1: val, ..r })
    } else if addr == 0xFF4A {
        Some(PPURegisters { WY: val, ..r })
    } else if addr == 0xFF4B {
        Some(PPURegisters { WX: val, ..r })
    } else {
        None
    }
}

/// The value of the register at `addr`, if the bus can read one there.
pub open spec fn register_read(r: PPURegisters, addr: u16) -> Option<u8> {
    if addr == 0xFF40 {
        Some(r.LCDC)
    } else if addr == 0xFF41 {
        Some(r.STAT)
    } else if addr == 0xFF42 {
        Some(r.SCY)
    } else if addr == 0xFF43 {
        Some(r.SCX)
    } else if addr == 0xFF44 {
        Some(r.LY)
    } else if addr == 0xFF45 {
        Some(r.LYC)
    } else if addr == 0xFF47 {
        Some(r.BGP)
    } else if addr == 0xFF48 {
        Some(r.OBP0)
    } else if addr == 0xFF49 {
        Some(r.OBP1)
    } else if addr == 0xFF4A {
        Some(r.WY)
    } else if addr == 0xFF4B {
        Some(r.WX)
    } else {
        None
    }
}

} // verus!
