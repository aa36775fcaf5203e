//! What the scanline compositor draws: tile decoding, palette mapping, and
//! the background and window layers of one line.

use vstd::prelude::*;

use crate::display::{shade_of, Shade, W_WIDTH};
use crate::registers::PPURegisters;

verus! {

/// Bit `k` (0 = least significant) of `b`.
pub open spec fn bit_of(b: u8, k: int) -> u8 {
    (b >> (k as u8)) & 1
}

/// The two-bit colour index of screen column `j` (0 = leftmost) of a tile
/// row whose bit planes are `lo` and `hi`.
pub open spec fn pixel_of(lo: u8, hi: u8, j: int) -> u8 {
    (2 * bit_of(hi, 7 - j) + bit_of(lo, 7 - j)) as u8
}

/// Address of the low bit plane of row `row` of tile `tile`, under the
/// tile-data addressing mode chosen by bit 4 of `lcdc`.
pub open spec fn tile_row_addr(lcdc: u8, tile: u8, row: int) -> int {
    (if lcdc & 0x10 == 0 && tile <= 0x80 {
        0x9000int
    } else {
        0x8000int
    }) + 16 * tile + 2 * row
}

/// The shade that palette `bgp` gives to colour index `color` (0..=3).
pub open spec fn palette_shade(bgp: u8, color: u8) -> Shade {
    shade_of(((bgp >> (2 * color) as u8) & 3) as int)
}

/// Byte `addr` of the video-memory window whose contents are `mem`.
pub open spec fn vram_at(mem: Seq<u8>, addr: int) -> u8 {
    mem[addr - 0x8000]
}

/// Shade of column `col` of row `row` of tile `tile`.
pub open spec fn tile_shade(r: PPURegisters, mem: Seq<u8>, tile: u8, row: int, col: int) -> Shade {
    let a = tile_row_addr(r.LCDC, tile, row);
    palette_shade(r.BGP, pixel_of(vram_at(mem, a), vram_at(mem, a + 1), col))
}

/// Background shade at screen column `x` of line `LY`: the 256x256
/// background is sampled at `((x + SCX) mod 256, (SCY + LY) mod 256)`.
pub open spec fn bg_shade(r: PPURegisters, mem: Seq<u8>, x: int) -> Shade {
    let map = if r.LCDC & 0x08 != 0 {
        0x9C00int
    } else {
        0x9800int
    };
    let y = (r.SCY + r.LY) % 256;
    let p = (x + r.SCX) % 256;
    tile_shade(r, mem, vram_at(mem, map + 32 * (y / 8) + p / 8), y % 8, p % 8)
}

/// The window layer is drawn on line `LY`.
pub open spec fn window_on(r: PPURegisters) -> bool {
    r.LCDC & 0x80 != 0 && r.LCDC & 0x20 != 0 && r.LY >= r.WY
}

/// The window places a pixel at screen column `x` of line `LY`.
pub open spec fn window_covers(r: PPURegisters, x: int) -> bool {
    window_on(r) && r.WX <= x + 7 < W_WIDTH
}

/// The window places at least one pixel on line `LY`.
pub open spec fn window_placed(r: PPURegisters) -> bool {
    exists|x: int| 0 <= x < W_WIDTH && #[trigger] window_covers(r, x)
}

/// Window shade at screen column `x`, taken from window line `WC`.
pub open spec fn win_shade(r: PPURegisters, mem: Seq<u8>, x: int) -> Shade {
    let map = if r.LCDC & 0x40 != 0 {
        0x9C00int
    } else {
        0x9800int
    };
    let q = x + 7 - r.WX;
    tile_shade(r, mem, vram_at(mem, map + 32 * (r.WC / 8) + q / 8), (r.WC % 8) as int, q % 8)
}

/// What column `x` of line `LY` shows once the line is composited over a
/// pixel that was `prev`.
pub open spec fn line_pixel(r: PPURegisters, mem: Seq<u8>, x: int, prev: Shade) -> Shade {
    if r.LCDC & 0x80 == 0 {
        prev
    } else if window_covers(r, x) {
        win_shade(r, mem, x)
    } else if r.LCDC & 1 != 0 {
        bg_shade(r, mem, x)
    } else {
        prev
    }
}

/// The frame buffer `view` with line `LY` composited.
pub open spec fn drawn_line(view: Seq<Shade>, r: PPURegisters, mem: Seq<u8>) -> Seq<Shade> {
    let start = r.LY * W_WIDTH;
    Seq::new(
        view.len(),
        |k: int|
            if start <= k < start + W_WIDTH {
                line_pixel(r, mem, k - start, view[k])
            } else {
                view[k]
            },
    )
}

/// The register bank after compositing line `LY`: the window line counter
/// has advanced if the window placed a pixel.
pub open spec fn after_line(r: PPURegisters) -> PPURegisters {
    PPURegisters {
        WC: if window_placed(r) {
            (r.WC + 1) as u8
        } else {
            r.WC
        },
        ..r
    }
}

/// Screen column `x` samples background column `p` under scroll `scx`
/// exactly when `x` is where the compositor places `p`.
pub(crate) proof fn lemma_wrapped_column(x: int, scx: int, p: int)
    requires
        0 <= x < 256,
        0 <= scx < 256,
        0 <= p < 256,
    ensures
        ((x + scx) % 256 == p) == (x == (p + 256 - scx) % 256),
{
}

/// The frame buffer `prev` shows, on the row that starts at `row_start`,
/// the background wherever the compositor has placed background columns
/// below `n`, and `v0` elsewhere.
pub open spec fn bg_placed_below(
    v0: Seq<Shade>,
    prev: Seq<Shade>,
    r: PPURegisters,
    mem: Seq<u8>,
    row_start: int,
    n: int,
) -> bool {
    &&& prev.len() == v0.len()
    &&& forall|k: int|
        0 <= k < v0.len() ==> #[trigger] prev[k] == (if row_start <= k < row_start + W_WIDTH && (k
            - row_start + r.SCX) % 256 < n {
            bg_shade(r, mem, k - row_start)
        } else {
            v0[k]
        })
}

/// The pixel that background slot `i`, column `j` places on screen is
/// the background sampled there.
pub(crate) proof fn lemma_bg_sample(r: PPURegisters, mem: Seq<u8>, i: int, j: int, tile: u8, color: u8)
    requires
        0 <= i < 32,
        0 <= j < 8,
        (8 * i + j + 256 - r.SCX) % 256 < W_WIDTH,
        tile == vram_at(
            mem,
            (if r.LCDC & 0x08 != 0 {
                0x9C00int
            } else {
                0x9800int
            }) + 32 * (((r.SCY + r.LY) % 256) / 8) + i,
        ),
        color == pixel_of(
            vram_at(mem, tile_row_addr(r.LCDC, tile, (r.SCY + r.LY) % 256 % 8)),
            vram_at(mem, tile_row_addr(r.LCDC, tile, (r.SCY + r.LY) % 256 % 8) + 1),
            j,
        ),
    ensures
        palette_shade(r.BGP, color) == bg_shade(r, mem, (8 * i + j + 256 - r.SCX) % 256),
{
    let x = (8 * i + j + 256 - r.SCX) % 256;
    let p = 8 * i + j;
    lemma_wrapped_column(x, r.SCX as int, p);
    assert((x + r.SCX) % 256 == p);
    assert(p / 8 == i && p % 8 == j);
    let map = if r.LCDC & 0x08 != 0 {
        0x9C00int
    } else {
        0x9800int
    };
    let y = (r.SCY + r.LY) % 256;
    assert(bg_shade(r, mem, x) == tile_shade(r, mem, vram_at(mem, map + 32 * (y / 8) + i), y % 8, j));
}

/// Placing background column `n` extends what is placed to columns below
/// `n + 1`.
pub(crate) proof fn lemma_bg_column_step(
    v0: Seq<Shade>,
    prev: Seq<Shade>,
    next: Seq<Shade>,
    r: PPURegisters,
    mem: Seq<u8>,
    row_start: int,
    n: int,
)
    requires
        0 <= row_start,
        row_start + W_WIDTH <= v0.len(),
        0 <= n < 256,
        bg_placed_below(v0, prev, r, mem, row_start, n),
        next == (if (n + 256 - r.SCX) % 256 < W_WIDTH {
            prev.update(row_start + (n + 256 - r.SCX) % 256, bg_shade(r, mem, (n + 256 - r.SCX) % 256))
        } else {
            prev
        }),
    ensures
        bg_placed_below(v0, next, r, mem, row_start, n + 1),
{
    let bx = (n + 256 - r.SCX) % 256;
    assert forall|k: int| 0 <= k < v0.len() implies #[trigger] next[k] == (if row_start <= k
        < row_start + W_WIDTH && (k - row_start + r.SCX) % 256 < n + 1 {
        bg_shade(r, mem, k - row_start)
    } else {
        v0[k]
    }) by {
        if row_start <= k < row_start + W_WIDTH {
            lemma_wrapped_column(k - row_start, r.SCX as int, n);
        }
    }
}

/// The frame buffer `prev` shows, on the row that starts at `row_start`,
/// the window wherever it has placed window columns below `n`, and `v1`
/// elsewhere.
pub open spec fn win_placed_below(
    v1: Seq<Shade>,
    prev: Seq<Shade>,
    r: PPURegisters,
    mem: Seq<u8>,
    row_start: int,
    n: int,
) -> bool {
    &&& prev.len() == v1.len()
    &&& forall|k: int|
        0 <= k < v1.len() ==> #[trigger] prev[k] == (if row_start <= k < row_start + W_WIDTH
            && window_covers(r, k - row_start) && k - row_start + 7 - r.WX < n {
            win_shade(r, mem, k - row_start)
        } else {
            v1[k]
        })
}

/// Placing window column `n` extends what is placed to columns below
/// `n + 1`.
pub(crate) proof fn lemma_win_column_step(
    v1: Seq<Shade>,
    prev: Seq<Shade>,
    next: Seq<Shade>,
    r: PPURegisters,
    mem: Seq<u8>,
    row_start: int,
    n: int,
)
    requires
        0 <= row_start,
        row_start + W_WIDTH <= v1.len(),
        0 <= n < 256,
        window_on(r),
        win_placed_below(v1, prev, r, mem, row_start, n),
        next == (if 7 <= n + r.WX < W_WIDTH {
            prev.update(row_start + n + r.WX - 7, win_shade(r, mem, n + r.WX - 7))
        } else {
            prev
        }),
    ensures
        win_placed_below(v1, next, r, mem, row_start, n + 1),
{
    assert forall|k: int| 0 <= k < v1.len() implies #[trigger] next[k] == (if row_start <= k
        < row_start + W_WIDTH && window_covers(r, k - row_start) && k - row_start + 7 - r.WX < n
        + 1 {
        win_shade(r, mem, k - row_start)
    } else {
        v1[k]
    }) by {
        if 7 <= n + r.WX < W_WIDTH && k == row_start + n + r.WX - 7 {
            assert(window_covers(r, k - row_start));
        }
    }
}

/// The two bit planes `lo` and `hi` combine at bit `k` into a two-bit
/// colour index.
pub(crate) proof fn lemma_bit_planes(lo: u8, hi: u8, k: u8)
    requires
        k < 8,
    ensures
        (((hi >> k) & 1) << 1) | ((lo >> k) & 1) == 2 * ((hi >> k) & 1) + ((lo >> k) & 1),
        (((hi >> k) & 1) << 1) | ((lo >> k) & 1) < 4,
{
    let h = (hi >> k) & 1;
    let l = (lo >> k) & 1;
    assert(h <= 1 && l <= 1) by (bit_vector)
        requires
            h == (hi >> k) & 1,
            l == (lo >> k) & 1,
    ;
    assert(((h << 1) | l) == 2 * h + l && ((h << 1) | l) < 4) by (bit_vector)
        requires
            h <= 1,
            l <= 1,
    ;
}

/// Pixel `(x, y)` of the 256x256 tile sheet dumped from `base`: the 256
/// tiles that start there, 32 to a row of tiles; below them the sheet is
/// the lightest shade.
pub open spec fn sheet_pixel(r: PPURegisters, mem: Seq<u8>, base: int, y: int, x: int) -> Shade {
    if y < 64 {
        let a = base + 16 * (32 * (y / 8) + x / 8) + 2 * (y % 8);
        palette_shade(r.BGP, pixel_of(vram_at(mem, a), vram_at(mem, a + 1), x % 8))
    } else {
        Shade::White
    }
}

} // verus!
