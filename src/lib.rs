//! Scanline-based graphics chip of a handheld console: register bank,
//! video and object memory, mode scheduler, status/vblank interrupts and
//! the background/window compositor, with its frame pump.

pub mod compositor;
pub mod display;
pub mod lemmas;
pub mod ppu;
pub mod registers;
pub mod timing;
