use vstd::prelude::*;

use crate::constants::{MAP_HEIGHT, MAP_SCALE_H, MAP_SCALE_W, MAP_WIDTH};
use crate::map::{Tile, TileMap};
use crate::video::{in_square, lemma_cell, lemma_cell_below, pack_rgb, Video};

verus! {

/// A picture of palette indices, `width` by `height`, stored in four planes:
/// plane `x % 4` holds the columns `x` with that remainder, each plane row by row.
pub struct Picture {
    pub width: u32,
    pub height: u32,
    pub data: Vec<u8>,
}

impl Picture {
    pub open spec fn wf(&self) -> bool {
        &&& self.width % 4 == 0
        &&& self.width * self.height <= u32::MAX
        &&& self.data@.len() == self.width * self.height
    }

    /// Index in `data` of the pixel at `(x, y)`.
    pub open spec fn index_of(&self, x: int, y: int) -> int {
        let q = self.width as int / 4;
        y * q + x / 4 + (x % 4) * q * self.height
    }
}

/// The pixel at `(x, y)` of a planar picture lies inside its data.
proof fn lemma_planar_index(width: int, height: int, x: int, y: int)
    requires
        width % 4 == 0,
        0 <= x < width,
        0 <= y < height,
    ensures
        0 <= (x % 4) * (width / 4) <= (x % 4) * (width / 4) * height,
        0 <= y * (width / 4) + x / 4 + (x % 4) * (width / 4) * height < width * height,
{
    let q = width / 4;
    let r = x % 4;
    assert(width == 4 * q);
    assert(x / 4 < q);
    assert(0 <= r <= 3);
    assert(0 <= r * q <= r * q * height) by (nonlinear_arith)
        requires 0 <= r, 0 <= q, 1 <= height;
    assert(0 <= y * q + x / 4 + r * q * height < width * height) by (nonlinear_arith)
        requires x / 4 < q, 0 <= x / 4, 0 <= y < height, 0 <= r <= 3, q >= 0, width == 4 * q;
}

/// Bit patterns of the digits 0 to 9 in a 3 by 5 font, one row per entry, the
/// leftmost column in the highest of the three bits.
pub const DIGITS: [[u8; 5]; 10] = [
    [0b111, 0b101, 0b101, 0b101, 0b111],
    [0b010, 0b110, 0b010, 0b010, 0b111],
    [0b111, 0b001, 0b111, 0b100, 0b111],
    [0b111, 0b001, 0b111, 0b001, 0b111],
    [0b101, 0b101, 0b111, 0b001, 0b001],
    [0b111, 0b100, 0b111, 0b001, 0b111],
    [0b111, 0b100, 0b111, 0b101, 0b111],
    [0b111, 0b001, 0b001, 0b001, 0b001],
    [0b111, 0b101, 0b111, 0b101, 0b111],
    [0b111, 0b101, 0b111, 0b001, 0b111],
];

/// Palette index of the digits and of the minimap's walls.
pub const WHITE: usize = 255;

/// Palette index of the minimap's floors and doors.
pub const BLACK: usize = 0;

/// Palette index of the player's mark on the minimap.
pub const PLAYER_MARK: usize = 10;

/// Side, in pixels, of the square kept for the minimap.
pub const MINIMAP_SIZE: u32 = 128;

/// Gap, in pixels, between the minimap and the top right corner of the screen.
pub const MINIMAP_MARGIN: u32 = 10;

/// The color that `draw_texture` leaves at `(px, py)` of `v`: inside the
/// picture's box, its pixel `((px - shift_x) / scale, (py - shift_y) / scale)`.
pub open spec fn picture_pixel(v: Video, pic: &Picture, shift_x: u32, shift_y: u32, px: int, py: int) -> u32 {
    let s = v.scale as int;
    if shift_x <= px < shift_x + pic.width * s && shift_y <= py < shift_y + pic.height * s {
        pack_rgb(v.color_map@[pic.data@[pic.index_of((px - shift_x) / s, (py - shift_y) / s)] as int])
    } else {
        v.buffer@[v.offset(px, py)]
    }
}

/// Whether the font's cell at column `col` and row `row` of `digit` is lit.
pub open spec fn digit_lit(digit: u8, col: int, row: int) -> bool {
    ((DIGITS@[digit as int]@[row] >> (2 - col) as u8) & 1u8) == 1u8
}

/// Whether the FPS counter lights `(px, py)` with the first `n` of `digits`:
/// digit `k` stands in the 6 by 10 box at `(5 + 8 * k, 5)`, its font at scale 2.
pub open spec fn fps_lit(digits: Seq<u8>, n: int, px: int, py: int) -> bool {
    let a = px - 5;
    &&& 0 <= a
    &&& 5 <= py < 15
    &&& a / 8 < n
    &&& a % 8 < 6
    &&& digit_lit(digits[a / 8], (a % 8) / 2, (py - 5) / 2)
}

/// Palette index of a tile on the minimap: `WHITE` for a wall, `BLACK` otherwise.
pub open spec fn minimap_color(t: Tile) -> usize {
    if t is Wall { WHITE } else { BLACK }
}

/// The color that `draw_minimap` leaves at `(px, py)` of `v`: the player's
/// mark over the tiles, each tile a square of its `minimap_color`.
pub open spec fn minimap_pixel(v: Video, map: &TileMap, player_x: u32, player_y: u32, ms: u32, px: int, py: int) -> u32 {
    let mx = v.width - MINIMAP_SIZE - MINIMAP_MARGIN;
    let my = MINIMAP_MARGIN as int;
    if in_square(
        px,
        py,
        mx + (player_x / MAP_SCALE_W) * ms,
        my + (player_y / MAP_SCALE_H) * ms,
        ms as int,
    ) {
        pack_rgb(v.color_map@[PLAYER_MARK as int])
    } else if mx <= px < mx + MAP_WIDTH * ms && my <= py < my + MAP_HEIGHT * ms {
        pack_rgb(v.color_map@[minimap_color(map.tile_spec((px - mx) / (ms as int), (py - my) / (ms as int))) as int])
    } else {
        v.buffer@[v.offset(px, py)]
    }
}

/// On the minimap, pixel `(i, j)` of the square of tile `(cx, cy)` shows that
/// tile's color, unless the player's mark covers it.
pub proof fn lemma_minimap_tile(
    v: Video,
    map: &TileMap,
    player_x: u32,
    player_y: u32,
    ms: u32,
    cx: int,
    cy: int,
    i: int,
    j: int,
)
    requires
        v.wf(),
        1 <= ms,
        0 <= cx < MAP_WIDTH,
        0 <= cy < MAP_HEIGHT,
        0 <= i < ms,
        0 <= j < ms,
        !in_square(
            v.width - MINIMAP_SIZE - MINIMAP_MARGIN + cx * ms + i,
            MINIMAP_MARGIN + cy * ms + j,
            v.width - MINIMAP_SIZE - MINIMAP_MARGIN + (player_x / MAP_SCALE_W) * ms,
            MINIMAP_MARGIN + (player_y / MAP_SCALE_H) * ms,
            ms as int,
        ),
    ensures
        minimap_pixel(
            v,
            map,
            player_x,
            player_y,
            ms,
            v.width - MINIMAP_SIZE - MINIMAP_MARGIN + cx * ms + i,
            MINIMAP_MARGIN + cy * ms + j,
        ) == pack_rgb(v.color_map@[minimap_color(map.tile_spec(cx, cy)) as int]),
{
    let s = ms as int;
    lemma_cell(cx * s + i, s, cx);
    lemma_cell(cy * s + j, s, cy);
    assert(cx * s + i < 64 * s) by (nonlinear_arith)
        requires cx <= 63, i < s, s >= 1;
    assert(cy * s + j < 64 * s) by (nonlinear_arith)
        requires cy <= 63, j < s, s >= 1;
    assert(0 <= cx * s && 0 <= cy * s) by (nonlinear_arith)
        requires cx >= 0, cy >= 0, s >= 1;
}

/// A pixel at or after `(gx, gy)` lies in the square of side `s` of cell
/// `(cx, cy)` exactly when its cell coordinates are `(cx, cy)`.
proof fn lemma_square_cells(gx: int, gy: int, s: int, cx: int, cy: int)
    requires
        s > 0,
    ensures
        forall|px: int, py: int|
            px >= gx && py >= gy ==> (#[trigger] in_square(px, py, gx + cx * s, gy + cy * s, s) <==> ((px - gx) / s == cx
                && (py - gy) / s == cy)),
{
    assert forall|px: int, py: int| px >= gx && py >= gy implies (#[trigger] in_square(
        px,
        py,
        gx + cx * s,
        gy + cy * s,
        s,
    ) <==> ((px - gx) / s == cx && (py - gy) / s == cy)) by {
        lemma_cell(px - gx, s, cx);
        lemma_cell(py - gy, s, cy);
    }
}

/// The decimal digits of `n`, most significant first.
pub open spec fn decimal_digits_spec(n: nat) -> Seq<u8>
    decreases n,
{
    if n < 10 {
        seq![n as u8]
    } else {
        decimal_digits_spec(n / 10).push((n % 10) as u8)
    }
}

/// Every decimal digit is below 10, and a `usize` has at most 20 of them.
pub proof fn lemma_decimal_digits(n: nat)
    requires
        n <= usize::MAX,
    ensures
        1 <= decimal_digits_spec(n).len() <= 20,
        forall|i: int| 0 <= i < decimal_digits_spec(n).len() ==> #[trigger] decimal_digits_spec(n)[i] < 10,
    decreases n,
{
    if n >= 10 {
        lemma_decimal_digits(n / 10);
    }
    reveal_with_fuel(pow10, 21);
    assert(pow10(20) == 100000000000000000000nat);
    lemma_digits_len(n, 20);
}

/// `10` to the power `k`.
pub open spec fn pow10(k: nat) -> nat
    decreases k,
{
    if k == 0 { 1 } else { 10 * pow10((k - 1) as nat) }
}

proof fn lemma_digits_len(n: nat, k: nat)
    requires
        1 <= k,
        n < pow10(k),
    ensures
        decimal_digits_spec(n).len() <= k,
    decreases n,
{
    if n >= 10 {
        if k == 1 {
            assert(pow10(1) == 10 * pow10(0));
        } else {
            assert(pow10(k) == 10 * pow10((k - 1) as nat));
            lemma_digits_len(n / 10, (k - 1) as nat);
        }
    }
}

/// The decimal digits of `n`, most significant first.
pub fn decimal_digits(n: usize) -> (r: Vec<u8>)
    ensures
        r@ == decimal_digits_spec(n as nat),
    decreases n,
{
    if n < 10 {
        let mut v: Vec<u8> = Vec::new();
        v.push(n as u8);
        v
    } else {
        let mut v = decimal_digits(n / 10);
        v.push((n % 10) as u8);
        v
    }
}

impl Video {
    /// Draws a picture with its top left corner at `(shift_x, shift_y)`, each of
    /// its pixels as a square of `scale` by `scale` screen pixels (see
    /// `picture_pixel`).
    pub fn draw_texture(&mut self, shift_x: u32, shift_y: u32, pic: &Picture)
        requires
            old(self).wf(),
            pic.wf(),
            shift_x + pic.width * old(self).scale <= u32::MAX,
            shift_y + pic.height * old(self).scale <= u32::MAX,
        ensures
            final(self).wf(),
            final(self).same_frame(old(self)),
            forall|px: int, py: int|
                0 <= px < old(self).width && 0 <= py < old(self).height ==> #[trigger] final(self).buffer@[final(self).offset(px, py)]
                    == picture_pixel(*old(self), pic, shift_x, shift_y, px, py),
    {
        let ghost orig = *self;
        let ghost sx: int = shift_x as int;
        let ghost sy: int = shift_y as int;
        let scale = self.scale;
        let ghost s: int = scale as int;
        let q = pic.width / 4;
        let mut y: u32 = 0;
        while y < pic.height
            invariant
                self.wf(),
                self.same_frame(&orig),
                scale == self.scale,
                s == scale,
                s >= 1,
                sx == shift_x,
                sy == shift_y,
                pic.wf(),
                q == pic.width / 4,
                y <= pic.height,
                shift_y + pic.height * scale <= u32::MAX,
                shift_x + pic.width * scale <= u32::MAX,
                forall|px: int, py: int|
                    0 <= px < self.width && 0 <= py < self.height ==> #[trigger] self.buffer@[self.offset(px, py)]
                        == if sx <= px < sx + pic.width * s && sy <= py < sy + pic.height * s && (py - sy) / s < y {
                        pack_rgb(orig.color_map@[pic.data@[pic.index_of((px - sx) / s, (py - sy) / s)] as int])
                    } else {
                        orig.buffer@[orig.offset(px, py)]
                    },
            decreases pic.height - y,
        {
            let mut x: u32 = 0;
            while x < pic.width
                invariant
                    self.wf(),
                    self.same_frame(&orig),
                    scale == self.scale,
                    s == scale,
                    s >= 1,
                    sx == shift_x,
                    sy == shift_y,
                    pic.wf(),
                    q == pic.width / 4,
                    y < pic.height,
                    x <= pic.width,
                    shift_y + pic.height * scale <= u32::MAX,
                    shift_x + pic.width * scale <= u32::MAX,
                    forall|px: int, py: int|
                        0 <= px < self.width && 0 <= py < self.height ==> #[trigger] self.buffer@[self.offset(px, py)]
                            == if sx <= px < sx + pic.width * s && sy <= py < sy + pic.height * s && ((py - sy) / s < y
                            || ((py - sy) / s == y && (px - sx) / s < x)) {
                            pack_rgb(orig.color_map@[pic.data@[pic.index_of((px - sx) / s, (py - sy) / s)] as int])
                        } else {
                            orig.buffer@[orig.offset(px, py)]
                        },
                decreases pic.width - x,
            {
                assert(x * scale + scale <= pic.width * scale) by (nonlinear_arith)
                    requires x < pic.width;
                assert(y * scale + scale <= pic.height * scale) by (nonlinear_arith)
                    requires y < pic.height;
                proof {
                    lemma_planar_index(pic.width as int, pic.height as int, x as int, y as int);
                    lemma_square_cells(sx, sy, s, x as int, y as int);
                }
                let source_index = (y * q + x / 4) + (x % 4) * q * pic.height;
                let color = pic.data[source_index as usize];
                assert(source_index == pic.index_of(x as int, y as int));
                self.fill_square(shift_x + x * scale, shift_y + y * scale, scale, color as usize);
                x = x + 1;
            }
            proof {
                assert forall|px: int| sx <= px < sx + pic.width * s implies #[trigger] ((px - sx) / s) < pic.width by {
                    lemma_cell_below(px - sx, s, pic.width as int);
                }
            }
            y = y + 1;
        }
        proof {
            assert forall|py: int| sy <= py < sy + pic.height * s implies #[trigger] ((py - sy) / s) < pic.height by {
                lemma_cell_below(py - sy, s, pic.height as int);
            }
        }
    }

    /// Draws digit `digit` (nothing for a value above 9) in the 3 by 5 font
    /// with its top left corner at `(x, y)`, each lit cell a `scale` by `scale`
    /// square of palette index `WHITE`; the unlit cells are left as they are.
    pub fn draw_digit(&mut self, x: u32, y: u32, digit: u8, scale: u32)
        requires
            old(self).wf(),
            x + 3 * scale <= u32::MAX,
            y + 5 * scale <= u32::MAX,
        ensures
            final(self).wf(),
            final(self).same_frame(old(self)),
            final(self).unchanged_outside(old(self), x as int, y as int, x + 3 * scale, y + 5 * scale),
            digit > 9 ==> final(self).buffer@ == old(self).buffer@,
            digit <= 9 ==> forall|px: int, py: int|
                0 <= px < old(self).width && 0 <= py < old(self).height ==> #[trigger] final(self).buffer@[final(self).offset(px, py)]
                    == if x <= px < x + 3 * scale && y <= py < y + 5 * scale && digit_lit(
                    digit,
                    (px - x) / (scale as int),
                    (py - y) / (scale as int),
                ) {
                    pack_rgb(old(self).color_map@[WHITE as int])
                } else {
                    old(self).buffer@[old(self).offset(px, py)]
                },
    {
        let ghost orig = *self;
        if digit > 9 {
            return;
        }
        let pattern = DIGITS[digit as usize];
        let mut dy: u32 = 0;
        while dy < 5
            invariant
                self.wf(),
                self.same_frame(&orig),
                x + 3 * scale <= u32::MAX,
                y + 5 * scale <= u32::MAX,
                digit <= 9,
                pattern@ == DIGITS@[digit as int]@,
                dy <= 5,
                forall|px: int, py: int|
                    0 <= px < self.width && 0 <= py < self.height ==> #[trigger] self.buffer@[self.offset(px, py)]
                        == if x <= px < x + 3 * scale && y <= py < y + 5 * scale && (py - y) / (scale as int)
                        < dy && digit_lit(digit, (px - x) / (scale as int), (py - y) / (scale as int)) {
                        pack_rgb(orig.color_map@[WHITE as int])
                    } else {
                        orig.buffer@[orig.offset(px, py)]
                    },
            decreases 5 - dy,
        {
            let row = pattern[dy as usize];
            let mut dx: u32 = 0;
            while dx < 3
                invariant
                    self.wf(),
                    self.same_frame(&orig),
                    x + 3 * scale <= u32::MAX,
                    y + 5 * scale <= u32::MAX,
                    digit <= 9,
                    row == DIGITS@[digit as int]@[dy as int],
                    dy < 5,
                    dx <= 3,
                    forall|px: int, py: int|
                        0 <= px < self.width && 0 <= py < self.height ==> #[trigger] self.buffer@[self.offset(px, py)]
                            == if x <= px < x + 3 * scale && y <= py < y + 5 * scale && ((py - y) / (scale as int)
                            < dy || ((py - y) / (scale as int) == dy && (px - x) / (scale as int) < dx)) && digit_lit(
                            digit,
                            (px - x) / (scale as int),
                            (py - y) / (scale as int),
                        ) {
                            pack_rgb(orig.color_map@[WHITE as int])
                        } else {
                            orig.buffer@[orig.offset(px, py)]
                        },
                decreases 3 - dx,
            {
                assert(dx * scale + scale <= 3 * scale) by (nonlinear_arith)
                    requires dx < 3;
                assert(dy * scale + scale <= 5 * scale) by (nonlinear_arith)
                    requires dy < 5;
                let lit = row & (4u8 >> (dx as u8)) != 0;
                proof {
                    let d = dx as u8;
                    let e = (2 - dx) as u8;
                    assert(((row & (4u8 >> d)) != 0) == (((row >> e) & 1u8) == 1u8)) by (bit_vector)
                        requires d < 3, e + d == 2;
                    assert(lit == digit_lit(digit, dx as int, dy as int));
                    if scale > 0 {
                        lemma_square_cells(x as int, y as int, scale as int, dx as int, dy as int);
                    }
                }
                if lit {
                    self.fill_square(x + dx * scale, y + dy * scale, scale, WHITE);
                }
                dx = dx + 1;
            }
            proof {
                assert forall|px: int| x <= px < x + 3 * scale implies #[trigger] ((px - x) / (scale as int)) < 3 by {
                    lemma_cell_below(px - x, scale as int, 3);
                }
            }
            dy = dy + 1;
        }
        proof {
            assert forall|py: int| y <= py < y + 5 * scale implies #[trigger] ((py - y) / (scale as int)) < 5 by {
                lemma_cell_below(py - y, scale as int, 5);
            }
        }
    }

    /// Draws the decimal digits of `fps`, most significant first, at scale 2
    /// from `(5, 5)`, one every 8 pixels (see `fps_lit`).
    pub fn draw_fps_counter(&mut self, fps: usize)
        requires
            old(self).wf(),
        ensures
            final(self).wf(),
            final(self).same_frame(old(self)),
            forall|px: int, py: int|
                0 <= px < old(self).width && 0 <= py < old(self).height ==> #[trigger] final(self).buffer@[final(self).offset(px, py)]
                    == if fps_lit(decimal_digits_spec(fps as nat), decimal_digits_spec(fps as nat).len() as int, px, py) {
                    pack_rgb(old(self).color_map@[WHITE as int])
                } else {
                    old(self).buffer@[old(self).offset(px, py)]
                },
    {
        let ghost orig = *self;
        let x: u32 = 5;
        let y: u32 = 5;
        let scale: u32 = 2;
        let digits = decimal_digits(fps);
        proof {
            lemma_decimal_digits(fps as nat);
        }
        let mut i: usize = 0;
        while i < digits.len()
            invariant
                self.wf(),
                self.same_frame(&orig),
                digits@ == decimal_digits_spec(fps as nat),
                digits@.len() <= 20,
                forall|k: int| 0 <= k < digits@.len() ==> #[trigger] digits@[k] < 10,
                i <= digits@.len(),
                x == 5,
                y == 5,
                scale == 2,
                forall|px: int, py: int|
                    0 <= px < self.width && 0 <= py < self.height ==> #[trigger] self.buffer@[self.offset(px, py)]
                        == if fps_lit(digits@, i as int, px, py) {
                        pack_rgb(orig.color_map@[WHITE as int])
                    } else {
                        orig.buffer@[orig.offset(px, py)]
                    },
            decreases digits@.len() - i,
        {
            let xd = x + i as u32 * 4 * scale;
            self.draw_digit(xd, y, digits[i], scale);
            proof {
                assert forall|px: int, py: int|
                    0 <= px < self.width && 0 <= py < self.height implies #[trigger] self.buffer@[self.offset(px, py)]
                        == if fps_lit(digits@, i + 1, px, py) {
                        pack_rgb(orig.color_map@[WHITE as int])
                    } else {
                        orig.buffer@[orig.offset(px, py)]
                    } by {
                    if px >= 5 {
                        let a = px - 5;
                        if 8 * i <= a < 8 * i + 6 {
                            assert(a / 8 == i && a % 8 == a - 8 * i);
                        }
                    }
                }
            }
            i = i + 1;
        }
    }

    /// Draws the map in the top right corner, from column
    /// `width - MINIMAP_SIZE - MINIMAP_MARGIN` and row `MINIMAP_MARGIN`,
    /// each tile a `minimap_scale` square of `minimap_color`, then the player's
    /// mark, a square of `PLAYER_MARK`, on the tile that holds the world
    /// position `(player_x, player_y)`. A scale of 0 draws nothing.
    pub fn draw_minimap(&mut self, map: &TileMap, player_x: u32, player_y: u32, minimap_scale: u32)
        requires
            old(self).wf(),
            map.wf(),
            minimap_scale <= 1000,
            player_x < MAP_WIDTH * MAP_SCALE_W,
            player_y < MAP_HEIGHT * MAP_SCALE_H,
        ensures
            final(self).wf(),
            final(self).same_frame(old(self)),
            forall|px: int, py: int|
                0 <= px < old(self).width && 0 <= py < old(self).height ==> #[trigger] final(self).buffer@[final(self).offset(px, py)]
                    == minimap_pixel(*old(self), map, player_x, player_y, minimap_scale, px, py),
    {
        let ghost orig = *self;
        if minimap_scale == 0 {
            return;
        }
        let map_width = MAP_WIDTH as u32;
        let map_height = MAP_HEIGHT as u32;
        let minimap_x = self.width - MINIMAP_SIZE - MINIMAP_MARGIN;
        let minimap_y = MINIMAP_MARGIN;
        let ghost mx: int = minimap_x as int;
        let ghost my: int = minimap_y as int;
        let ghost ms: int = minimap_scale as int;
        let mut y: u32 = 0;
        while y < map_height
            invariant
                self.wf(),
                self.same_frame(&orig),
                map.wf(),
                1 <= minimap_scale <= 1000,
                minimap_x == orig.width - MINIMAP_SIZE - MINIMAP_MARGIN,
                minimap_x < 1600,
                mx == minimap_x,
                my == minimap_y,
                ms == minimap_scale,
                minimap_y == MINIMAP_MARGIN,
                map_width == MAP_WIDTH,
                map_height == MAP_HEIGHT,
                y <= map_height,
                forall|px: int, py: int|
                    0 <= px < self.width && 0 <= py < self.height ==> #[trigger] self.buffer@[self.offset(px, py)]
                        == if mx <= px < mx + MAP_WIDTH * ms && my <= py < my + MAP_HEIGHT * ms && (py - my) / ms < y {
                        pack_rgb(orig.color_map@[minimap_color(map.tile_spec((px - mx) / ms, (py - my) / ms)) as int])
                    } else {
                        orig.buffer@[orig.offset(px, py)]
                    },
            decreases map_height - y,
        {
            let mut x: u32 = 0;
            while x < map_width
                invariant
                    self.wf(),
                    self.same_frame(&orig),
                    map.wf(),
                    1 <= minimap_scale <= 1000,
                    minimap_x < 1600,
                    mx == minimap_x,
                    my == minimap_y,
                    ms == minimap_scale,
                    minimap_y == MINIMAP_MARGIN,
                    map_width == MAP_WIDTH,
                    map_height == MAP_HEIGHT,
                    y < map_height,
                    x <= map_width,
                    forall|px: int, py: int|
                        0 <= px < self.width && 0 <= py < self.height ==> #[trigger] self.buffer@[self.offset(px, py)]
                            == if mx <= px < mx + MAP_WIDTH * ms && my <= py < my + MAP_HEIGHT * ms && ((py - my) / ms < y
                            || ((py - my) / ms == y && (px - mx) / ms < x)) {
                            pack_rgb(orig.color_map@[minimap_color(map.tile_spec((px - mx) / ms, (py - my) / ms)) as int])
                        } else {
                            orig.buffer@[orig.offset(px, py)]
                        },
                decreases map_width - x,
            {
                let color_index = match map.tile_at(x as u8, y as u8) {
                    Tile::Wall(_) => WHITE,
                    Tile::Floor | Tile::Door { .. } => BLACK,
                };
                assert(x * minimap_scale + minimap_scale <= 64 * minimap_scale) by (nonlinear_arith)
                    requires x < 64;
                assert(y * minimap_scale + minimap_scale <= 64 * minimap_scale) by (nonlinear_arith)
                    requires y < 64;
                proof {
                    lemma_square_cells(mx, my, ms, x as int, y as int);
                }
                let screen_x = minimap_x + x * minimap_scale;
                let screen_y = minimap_y + y * minimap_scale;
                self.fill_square(screen_x, screen_y, minimap_scale, color_index);
                x = x + 1;
            }
            proof {
                assert forall|px: int| mx <= px < mx + MAP_WIDTH * ms implies #[trigger] ((px - mx) / ms) < 64 by {
                    lemma_cell_below(px - mx, ms, 64);
                }
            }
            y = y + 1;
        }
        proof {
            assert forall|py: int| my <= py < my + MAP_HEIGHT * ms implies #[trigger] ((py - my) / ms) < 64 by {
                lemma_cell_below(py - my, ms, 64);
            }
        }
        let px = player_x / MAP_SCALE_W;
        let py = player_y / MAP_SCALE_H;
        assert(px * minimap_scale + minimap_scale <= 64 * minimap_scale) by (nonlinear_arith)
            requires px < 64;
        assert(py * minimap_scale + minimap_scale <= 64 * minimap_scale) by (nonlinear_arith)
            requires py < 64;
        let player_sx = px * minimap_scale + minimap_x;
        let player_sy = py * minimap_scale + minimap_y;
        self.fill_square(player_sx, player_sy, minimap_scale, PLAYER_MARK);
    }
}

} // verus!
