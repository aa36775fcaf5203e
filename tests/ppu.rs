use gb_ppu::display::{DisplayEvent, Shade, W_HEIGHT, W_WIDTH};
use gb_ppu::ppu::PPU;
use gb_ppu::registers::{PPURegisters, PpuError};
use gb_ppu::timing::FRAME_CYCLES;

fn row(ppu: &PPU, y: usize) -> Vec<Shade> {
    ppu.viewport[y * W_WIDTH..(y + 1) * W_WIDTH].to_vec()
}

#[test]
fn registers_reset_values() {
    let r = PPURegisters::new();
    assert_eq!(r.STAT, 0x80);
    assert_eq!(r.LCDC, 0);
    assert_eq!(r.LY, 0);
    assert_eq!(r.WC, 0);
    assert!(!r.interrupts.vblank && !r.interrupts.stat);
}

#[test]
fn new_chip_is_blank() {
    let ppu = PPU::new();
    assert_eq!(ppu.viewport.len(), W_WIDTH * W_HEIGHT);
    assert!(ppu.viewport.iter().all(|s| *s == Shade::White));
    assert_eq!(ppu.read_byte(0xFF41), Ok(0x80));
    assert_eq!(ppu.cycles, 0);
}

#[test]
fn register_round_trip() {
    let mut ppu = PPU::new();
    for (addr, val) in [
        (0xFF40u16, 0x91u8),
        (0xFF42, 0x12),
        (0xFF43, 0x34),
        (0xFF45, 0x56),
        (0xFF47, 0xE4),
        (0xFF48, 0xD2),
        (0xFF49, 0x1B),
        (0xFF4A, 0x40),
        (0xFF4B, 0x07),
        (0x8000, 0xAB),
        (0x9FFF, 0xCD),
        (0xFE00, 0x11),
        (0xFE9F, 0x22),
    ] {
        assert_eq!(ppu.write_byte(addr, val), Ok(()));
        assert_eq!(ppu.read_byte(addr), Ok(val));
    }
}

#[test]
fn stat_write_keeps_low_bits() {
    let mut ppu = PPU::new();
    assert_eq!(ppu.write_byte(0xFF41, 0xFF), Ok(()));
    assert_eq!(ppu.read_byte(0xFF41), Ok(0xF8));
    assert_eq!(ppu.write_byte(0xFF41, 0x08), Ok(()));
    assert_eq!(ppu.read_byte(0xFF41), Ok(0x88));
    assert_eq!(ppu.write_byte(0xFF41, 0x00), Ok(()));
    assert_eq!(ppu.read_byte(0xFF41), Ok(0x80));
}

#[test]
fn ly_is_read_only() {
    let mut ppu = PPU::new();
    assert_eq!(
        ppu.write_byte(0xFF44, 5),
        Err(PpuError::AddressingFault { addr: 0xFF44 })
    );
    assert_eq!(ppu.read_byte(0xFF44), Ok(0));
}

#[test]
fn unmapped_addresses_fault() {
    let mut ppu = PPU::new();
    for addr in [0x0000u16, 0x7FFF, 0xA000, 0xFEA0, 0xFF46, 0xFF4C] {
        assert_eq!(
            ppu.read_byte(addr),
            Err(PpuError::AddressingFault { addr })
        );
        assert_eq!(
            ppu.write_byte(addr, 1),
            Err(PpuError::AddressingFault { addr })
        );
    }
}

#[test]
fn palette_decode() {
    let mut ppu = PPU::new();
    ppu.write_byte(0xFF47, 0xE4).unwrap();
    assert_eq!(ppu.decode_palette(0), Ok(Shade::White));
    assert_eq!(ppu.decode_palette(1), Ok(Shade::LightGray));
    assert_eq!(ppu.decode_palette(2), Ok(Shade::DarkGray));
    assert_eq!(ppu.decode_palette(3), Ok(Shade::Black));
    ppu.write_byte(0xFF47, 0x1B).unwrap();
    assert_eq!(ppu.decode_palette(0), Ok(Shade::Black));
    assert_eq!(ppu.decode_palette(3), Ok(Shade::White));
    assert_eq!(
        ppu.decode_palette(4),
        Err(PpuError::PaletteDecodeFault { color: 4 })
    );
}

#[test]
fn tile_row_decoding_unsigned_mode() {
    let mut ppu = PPU::new();
    ppu.write_byte(0xFF40, 0x10).unwrap();
    ppu.write_byte(0x8010, 0b1010_0000).unwrap();
    ppu.write_byte(0x8011, 0b1100_0000).unwrap();
    assert_eq!(ppu.decode_tile_row(1, 0), [3, 2, 1, 0, 0, 0, 0, 0]);
}

#[test]
fn tile_row_decoding_signed_mode() {
    let mut ppu = PPU::new();
    // tiles 0..=0x80 come from 0x9000, higher ones from 0x8000
    ppu.write_byte(0x9802, 0x01).unwrap();
    ppu.write_byte(0x9803, 0x01).unwrap();
    assert_eq!(ppu.decode_tile_row(0x80, 1), [0, 0, 0, 0, 0, 0, 0, 3]);
    ppu.write_byte(0x8810, 0x80).unwrap();
    assert_eq!(ppu.decode_tile_row(0x81, 0), [1, 0, 0, 0, 0, 0, 0, 0]);
}

#[test]
fn blank_tile_renders_lightest_line() {
    let mut ppu = PPU::new();
    ppu.write_byte(0xFF40, 0x81).unwrap();
    ppu.write_byte(0xFF42, 0).unwrap();
    ppu.write_byte(0xFF43, 0).unwrap();
    // first draw line 0 with an all-black palette so the check below sees a change
    ppu.write_byte(0xFF47, 0xFF).unwrap();
    ppu.draw(80);
    assert!(row(&ppu, 0).iter().all(|s| *s == Shade::Black));
    ppu.write_byte(0xFF47, 0xE4).unwrap();
    ppu.draw(FRAME_CYCLES);
    assert_eq!(ppu.cycles, 80);
    assert_eq!(row(&ppu, 0), vec![Shade::White; W_WIDTH]);
}

#[test]
fn coincidence_interrupt_at_lyc() {
    let mut ppu = PPU::new();
    ppu.write_byte(0xFF45, 10).unwrap();
    ppu.write_byte(0xFF41, 0x40).unwrap();
    ppu.draw(10 * 456 - 4);
    assert_eq!(ppu.read_byte(0xFF44), Ok(9));
    assert_eq!(ppu.read_byte(0xFF41).unwrap() & 4, 0);
    assert_eq!(ppu.check_interrupts(), (false, false));
    ppu.draw(4);
    assert_eq!(ppu.read_byte(0xFF44), Ok(10));
    assert_eq!(ppu.cycles % 456, 0);
    assert_eq!(ppu.read_byte(0xFF41).unwrap() & 4, 4);
    assert_eq!(ppu.check_interrupts(), (false, true));
    assert_eq!(ppu.check_interrupts(), (false, false));
}

#[test]
fn coincidence_bit_follows_every_step() {
    let mut ppu = PPU::new();
    ppu.write_byte(0xFF45, 3).unwrap();
    for _ in 0..(FRAME_CYCLES / 4 + 10) {
        ppu.tick();
        let ly = ppu.read_byte(0xFF44).unwrap();
        let stat = ppu.read_byte(0xFF41).unwrap();
        assert_eq!(stat & 4 != 0, ly == 3);
        assert_eq!(ly as u64, ppu.cycles / 456);
        assert!(ppu.cycles < FRAME_CYCLES);
        assert!(ly <= 153);
    }
}

#[test]
fn scanline_and_offset_derivation() {
    let mut ppu = PPU::new();
    ppu.draw(456 * 7 + 100);
    assert_eq!(ppu.cycles, 456 * 7 + 100);
    assert_eq!(ppu.read_byte(0xFF44), Ok(7));
    ppu.draw(FRAME_CYCLES - 4 - ppu.cycles);
    assert_eq!(ppu.cycles, FRAME_CYCLES - 4);
    assert_eq!(ppu.read_byte(0xFF44), Ok(153));
    ppu.draw(4);
    assert_eq!(ppu.cycles, 0);
    assert_eq!(ppu.read_byte(0xFF44), Ok(0));
    ppu.draw(4);
    assert_eq!(ppu.cycles, 4);
}

#[test]
fn mode_transitions() {
    let mut ppu = PPU::new();
    ppu.draw(4);
    assert_eq!(ppu.read_byte(0xFF41).unwrap() & 3, 0);
    ppu.draw(76);
    assert_eq!(ppu.read_byte(0xFF41).unwrap() & 3, 3);
    ppu.draw(172);
    assert_eq!(ppu.read_byte(0xFF41).unwrap() & 3, 0);
    ppu.draw(204);
    assert_eq!(ppu.read_byte(0xFF41).unwrap() & 3, 2);
    ppu.draw(144 * 456 - 456);
    assert_eq!(ppu.read_byte(0xFF44), Ok(144));
    assert_eq!(ppu.read_byte(0xFF41).unwrap() & 3, 1);
}

#[test]
fn vblank_set_once_at_line_144() {
    let mut ppu = PPU::new();
    ppu.write_byte(0xFF41, 0x10).unwrap();
    ppu.draw(144 * 456 - 4);
    assert_eq!(ppu.check_interrupts(), (false, false));
    ppu.draw(4);
    assert_eq!(ppu.check_interrupts(), (true, true));
    let mut vblanks = 0;
    for _ in 0..(FRAME_CYCLES / 4 - 1) {
        ppu.tick();
        if ppu.check_interrupts().0 {
            vblanks += 1;
        }
    }
    assert_eq!(vblanks, 0);
    ppu.tick();
    assert_eq!(ppu.check_interrupts().0, true);
}

#[test]
fn at_most_one_stat_interrupt_per_line() {
    let mut ppu = PPU::new();
    // every source enabled, coincidence on line 5
    ppu.write_byte(0xFF41, 0x78).unwrap();
    ppu.write_byte(0xFF45, 5).unwrap();
    let mut per_line = vec![0u32; 154];
    // one pass over the frame: each line is visited once
    for _ in 0..(FRAME_CYCLES / 4 - 1) {
        ppu.tick();
        if ppu.check_interrupts().1 {
            per_line[ppu.read_byte(0xFF44).unwrap() as usize] += 1;
        }
    }
    assert!(per_line.iter().all(|n| *n <= 1));
    assert_eq!(per_line[5], 1);
    assert_eq!(per_line[144], 1);
}

#[test]
fn window_counter_advances_when_visible() {
    let mut ppu = PPU::new();
    ppu.write_byte(0xFF40, 0xA0).unwrap();
    ppu.write_byte(0xFF4A, 0).unwrap();
    ppu.write_byte(0xFF4B, 7).unwrap();
    ppu.draw(80);
    assert_eq!(ppu.registers.WC, 1);
    ppu.draw(456);
    assert_eq!(ppu.registers.WC, 2);
}

#[test]
fn window_off_screen_keeps_counter() {
    let mut ppu = PPU::new();
    ppu.write_byte(0xFF40, 0xA0).unwrap();
    ppu.write_byte(0xFF4A, 0).unwrap();
    ppu.write_byte(0xFF4B, 255).unwrap();
    ppu.draw(456 * 3);
    assert_eq!(ppu.registers.WC, 0);
    // right at the edge: no pixel lands either
    ppu.write_byte(0xFF4B, 160).unwrap();
    ppu.draw(456);
    assert_eq!(ppu.registers.WC, 0);
    ppu.write_byte(0xFF4B, 159).unwrap();
    ppu.draw(456);
    assert_eq!(ppu.registers.WC, 1);
}

#[test]
fn window_draws_over_background() {
    let mut ppu = PPU::new();
    // display, window on map 0x9C00, unsigned tiles, background on
    ppu.write_byte(0xFF40, 0xF1).unwrap();
    ppu.write_byte(0xFF47, 0xE4).unwrap();
    ppu.write_byte(0xFF4A, 0).unwrap();
    ppu.write_byte(0xFF4B, 87).unwrap();
    for a in 0x9C00u16..0xA000 {
        ppu.write_byte(a, 1).unwrap();
    }
    ppu.write_byte(0x8010, 0xFF).unwrap();
    ppu.write_byte(0x8011, 0xFF).unwrap();
    ppu.draw(80);
    let line = row(&ppu, 0);
    assert!(line[..80].iter().all(|s| *s == Shade::White));
    assert!(line[80..153].iter().all(|s| *s == Shade::Black));
    assert!(line[153..].iter().all(|s| *s == Shade::White));
    assert_eq!(ppu.registers.WC, 1);
}

#[test]
fn background_scroll_wraps() {
    let mut ppu = PPU::new();
    ppu.write_byte(0xFF40, 0x91).unwrap();
    ppu.write_byte(0xFF47, 0xE4).unwrap();
    ppu.write_byte(0xFF43, 250).unwrap();
    // background column 250 lies in map slot 31, pixel 2
    ppu.write_byte(0x9800 + 31, 1).unwrap();
    ppu.write_byte(0x8010, 0xFF).unwrap();
    ppu.write_byte(0x8011, 0xFF).unwrap();
    ppu.draw(80);
    let line = row(&ppu, 0);
    assert!(line[..6].iter().all(|s| *s == Shade::Black));
    assert!(line[6..].iter().all(|s| *s == Shade::White));
}

#[test]
fn background_vertical_scroll_wraps() {
    let mut ppu = PPU::new();
    ppu.write_byte(0xFF40, 0x91).unwrap();
    ppu.write_byte(0xFF47, 0xE4).unwrap();
    ppu.write_byte(0xFF42, 255).unwrap();
    // line 1 with SCY = 255 samples background row 0
    ppu.write_byte(0x9800, 1).unwrap();
    ppu.write_byte(0x8010, 0x80).unwrap();
    ppu.draw(456 + 80);
    let line = row(&ppu, 1);
    assert_eq!(line[0], Shade::LightGray);
    assert!(line[1..].iter().all(|s| *s == Shade::White));
}

#[test]
fn display_off_leaves_buffer() {
    let mut ppu = PPU::new();
    ppu.write_byte(0xFF40, 0x01).unwrap();
    ppu.write_byte(0xFF47, 0xFF).unwrap();
    ppu.draw(FRAME_CYCLES);
    assert!(ppu.viewport.iter().all(|s| *s == Shade::White));
}

#[test]
fn frames_and_event_poll() {
    let mut ppu = PPU::new();
    assert!(!ppu.take_event_poll());
    assert_eq!(ppu.draw(FRAME_CYCLES - 4), 0);
    assert!(!ppu.take_event_poll());
    assert_eq!(ppu.draw(4), 1);
    assert_eq!(ppu.cycles, 0);
    assert!(ppu.take_event_poll());
    assert!(!ppu.take_event_poll());
    assert_eq!(ppu.draw(FRAME_CYCLES), 1);
    assert!(ppu.take_event_poll());
    assert_eq!(ppu.draw(3 * FRAME_CYCLES + 2), 3);
    assert!(ppu.take_event_poll());
}

#[test]
fn display_event_values() {
    let e = DisplayEvent::KeyEvent((String::from("A"), true));
    assert!(matches!(e, DisplayEvent::KeyEvent((ref k, true)) if k == "A"));
    assert!(matches!(DisplayEvent::NoEvent, DisplayEvent::NoEvent));
}

#[test]
fn tile_sheet_dump() {
    let mut ppu = PPU::new();
    ppu.write_byte(0xFF47, 0xE4).unwrap();
    // tile 1, row 0: leftmost pixel has colour 1
    ppu.write_byte(0x8010, 0x80).unwrap();
    // tile 32 (second row of tiles), row 2: rightmost pixel has colour 3
    ppu.write_byte(0x8204, 0x01).unwrap();
    ppu.write_byte(0x8205, 0x01).unwrap();
    let sheet = ppu.dump_tiles(0x8000);
    assert_eq!(sheet.len(), 256 * 256);
    assert_eq!(sheet[8], Shade::LightGray);
    assert_eq!(sheet[10 * 256 + 7], Shade::Black);
    let others = sheet
        .iter()
        .enumerate()
        .filter(|(i, _)| *i != 8 && *i != 10 * 256 + 7)
        .all(|(_, s)| *s == Shade::White);
    assert!(others);
}

#[test]
fn tile_row_past_the_tile_reads_on() {
    let mut ppu = PPU::new();
    // row 8 of tile 0 is row 0 of tile 1 (0x9010 in the signed mode)
    ppu.write_byte(0x9011, 0xFF).unwrap();
    assert_eq!(ppu.decode_tile_row(0, 8), [2; 8]);
    assert_eq!(ppu.decode_tile_row(1, 0), [2; 8]);
}

#[test]
fn line_zero_starts_in_search_mode_after_wrap() {
    let mut ppu = PPU::new();
    // coincidence on line 0, search-mode interrupt enabled
    ppu.write_byte(0xFF45, 0).unwrap();
    ppu.write_byte(0xFF41, 0x60).unwrap();
    ppu.draw(FRAME_CYCLES - 4);
    assert_eq!(ppu.read_byte(0xFF41).unwrap() & 3, 1);
    ppu.check_interrupts();
    ppu.draw(4);
    assert_eq!(ppu.cycles, 0);
    assert_eq!(ppu.read_byte(0xFF44), Ok(0));
    let stat = ppu.read_byte(0xFF41).unwrap();
    assert_eq!(stat & 3, 2);
    assert_eq!(stat & 4, 4);
    assert_eq!(stat & 0x80, 0x80);
    assert_eq!(ppu.check_interrupts(), (false, true));
}
