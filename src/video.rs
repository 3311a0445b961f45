use vstd::prelude::*;

use crate::constants::{BASE_HEIGHT, BASE_WIDTH, STATUS_LINES};
use crate::palette::{build_color_map, scale_entry_spec, VGA_PALETTE};
use vstd::arithmetic::div_mod::{lemma_fundamental_div_mod, lemma_fundamental_div_mod_converse};

verus! {

/// Darkening divides the light ratio by `DARKNESS_NUM / DARKNESS_DEN` (that is, 0.75).
pub const DARKNESS_NUM: u64 = 3;

/// See `DARKNESS_NUM`.
pub const DARKNESS_DEN: u64 = 4;

/// Number of entries of a color map.
pub const COLOR_MAP_LEN: usize = 256;

/// An RGB triple packed as `0x00RRGGBB`.
pub open spec fn pack_rgb(c: (u8, u8, u8)) -> u32 {
    (c.0 as int * 65536 + c.1 as int * 256 + c.2 as int) as u32
}

/// One channel darkened by the light ratio `min(lightness, horizon) / horizon`
/// divided by the darkness constant, that factor clamped to at most 1, the
/// result truncated: `min(c * min(l, h) * 4 / (3 * h), c)`.
pub open spec fn darken_channel(c: u8, lightness: u32, horizon: u32) -> u8 {
    let m = if lightness < horizon { lightness as int } else { horizon as int };
    let v = c as int * m * DARKNESS_DEN as int / (DARKNESS_NUM as int * horizon as int);
    if v > c as int { c } else { v as u8 }
}

/// An RGB triple darkened channel by channel.
pub open spec fn darken_rgb(c: (u8, u8, u8), lightness: u32, horizon: u32) -> (u8, u8, u8) {
    (
        darken_channel(c.0, lightness, horizon),
        darken_channel(c.1, lightness, horizon),
        darken_channel(c.2, lightness, horizon),
    )
}

/// Packs an RGB triple as `0x00RRGGBB`.
pub fn pack(c: (u8, u8, u8)) -> (r: u32)
    ensures
        r == pack_rgb(c),
{
    (c.0 as u32) * 65536 + (c.1 as u32) * 256 + (c.2 as u32)
}

/// Darkens one channel by the light ratio `min(lightness, horizon) / horizon`.
pub fn darken(c: u8, lightness: u32, horizon: u32) -> (r: u8)
    requires
        horizon > 0,
    ensures
        r == darken_channel(c, lightness, horizon),
{
    let m: u64 = if lightness < horizon { lightness as u64 } else { horizon as u64 };
    let cc: u64 = c as u64;
    assert(cc * m <= 255 * 0xffff_ffff) by (nonlinear_arith)
        requires cc <= 255, m <= 0xffff_ffff;
    let num: u64 = cc * m * DARKNESS_DEN;
    let den: u64 = DARKNESS_NUM * (horizon as u64);
    let v: u64 = num / den;
    if v > cc { c } else { v as u8 }
}

/// Raising the light never darkens a channel.
pub proof fn lemma_darken_monotonic(c: u8, l1: u32, l2: u32, horizon: u32)
    requires
        horizon > 0,
        l1 <= l2,
    ensures
        darken_channel(c, l1, horizon) <= darken_channel(c, l2, horizon),
{
    let m1: int = if l1 < horizon { l1 as int } else { horizon as int };
    let m2: int = if l2 < horizon { l2 as int } else { horizon as int };
    let d: int = DARKNESS_NUM as int * horizon as int;
    assert(c as int * m1 * 4 <= c as int * m2 * 4) by (nonlinear_arith)
        requires m1 <= m2, c >= 0;
    assert(d > 0) by (nonlinear_arith) requires horizon > 0, d == 3 * horizon as int;
    assert((c as int * m1 * 4) / d <= (c as int * m2 * 4) / d) by (nonlinear_arith)
        requires c as int * m1 * 4 <= c as int * m2 * 4, d > 0;
}

/// Darkening never brightens a channel; at no light a channel is black, and at
/// the horizon's light or more the clamped factor is 1, so the color is kept.
pub proof fn lemma_darken_ends(c: u8, lightness: u32, horizon: u32)
    requires
        horizon > 0,
    ensures
        darken_channel(c, lightness, horizon) <= c,
        darken_channel(c, 0, horizon) == 0,
        lightness >= horizon ==> darken_channel(c, lightness, horizon) == c,
{
    let d: int = DARKNESS_NUM as int * horizon as int;
    assert(c as int * 0 * 4 == 0) by (nonlinear_arith);
    assert(d > 0) by (nonlinear_arith) requires horizon > 0, d == 3 * horizon as int;
    assert((c as int * horizon as int * 4) / d == c as int * 4 / 3) by (nonlinear_arith)
        requires d == 3 * horizon as int, horizon > 0;
    assert(c as int * 4 / 3 >= c as int);
}

/// A position inside a `width` by `height` screen (at most 1600 by 1000) has a
/// row-major index inside the buffer.
pub proof fn lemma_offset_in(width: u32, height: u32, x: u32, y: u32)
    requires
        width <= 1600,
        height <= 1000,
        x < width,
        y < height,
    ensures
        0 <= y * width + x < width * height <= 1_600_000,
{
    assert(0 <= y * width + x < width * height <= 1_600_000) by (nonlinear_arith)
        requires width <= 1600, height <= 1000, x < width, y < height;
}

/// `a / s` is `c` exactly when `a` lies in `[c * s, c * s + s)`: the cell of
/// side `s` that holds `a`.
pub proof fn lemma_cell(a: int, s: int, c: int)
    requires
        s > 0,
        a >= 0,
    ensures
        (a / s == c) <==> (c * s <= a < c * s + s),
{
    lemma_fundamental_div_mod(a, s);
    let q = a / s;
    let r = a % s;
    assert(0 <= r < s);
    assert(s * q == q * s) by (nonlinear_arith);
    if c * s <= a < c * s + s {
        lemma_fundamental_div_mod_converse(a, s, c, a - c * s);
    }
}

/// A point inside the first `n` cells of side `s` has a cell number below `n`.
pub proof fn lemma_cell_below(a: int, s: int, n: int)
    requires
        s > 0,
        0 <= a < n * s,
    ensures
        0 <= a / s < n,
{
    lemma_fundamental_div_mod(a, s);
    let q = a / s;
    assert(0 <= a % s < s);
    assert(0 <= q < n) by (nonlinear_arith)
        requires a == s * q + a % s, 0 <= a % s < s, 0 <= a < n * s, s > 0;
}

/// Whether `(px, py)` lies in the square of side `side` at `(sx, sy)`.
pub open spec fn in_square(px: int, py: int, sx: int, sy: int, side: int) -> bool {
    sx <= px < sx + side && sy <= py < sy + side
}

/// The framebuffer and the screen geometry it is drawn with.
pub struct Video {
    pub width: u32,
    pub height: u32,
    pub pix_width: u32,
    pub pix_height: u32,
    pub pix_center: u32,
    pub scale: u32,
    pub color_map: Vec<(u8, u8, u8)>,
    pub buffer: Vec<u32>,
}

impl Video {
    /// The geometry follows from the scale, the color map has 256 entries and the
    /// buffer holds one pixel per screen position, row by row.
    pub open spec fn wf(&self) -> bool {
        &&& 1 <= self.scale <= 5
        &&& self.width == BASE_WIDTH * self.scale
        &&& self.height == BASE_HEIGHT * self.scale
        &&& self.pix_width == self.width
        &&& self.pix_height == self.height - STATUS_LINES * self.scale
        &&& self.pix_center == self.pix_height / 2
        &&& self.color_map@.len() == COLOR_MAP_LEN
        &&& self.buffer@.len() == self.width * self.height
    }

    /// Everything but the buffer's pixels is the same in both.
    pub open spec fn same_frame(&self, other: &Video) -> bool {
        &&& self.width == other.width
        &&& self.height == other.height
        &&& self.pix_width == other.pix_width
        &&& self.pix_height == other.pix_height
        &&& self.pix_center == other.pix_center
        &&& self.scale == other.scale
        &&& self.color_map@ == other.color_map@
        &&& self.buffer@.len() == other.buffer@.len()
    }

    /// Index of screen position `(x, y)` in the buffer.
    pub open spec fn offset(&self, x: int, y: int) -> int {
        y * self.width + x
    }

    /// Every pixel of the screen outside the rectangle `[x0, x1) x [y0, y1)` is as in `old`.
    pub open spec fn unchanged_outside(&self, old: &Video, x0: int, y0: int, x1: int, y1: int) -> bool {
        forall|x: int, y: int|
            0 <= x < self.width && 0 <= y < self.height && !(x0 <= x < x1 && y0 <= y < y1)
                ==> #[trigger] self.buffer@[self.offset(x, y)] == old.buffer@[old.offset(x, y)]
    }

    /// Every pixel of the screen but the one at `(px, py)` is as in `old`.
    pub open spec fn keeps_all_but(&self, old: &Video, px: int, py: int) -> bool {
        forall|x: int, y: int|
            0 <= x < self.width && 0 <= y < self.height && (x != px || y != py)
                ==> #[trigger] self.buffer@[self.offset(x, y)] == old.buffer@[old.offset(x, y)]
    }

    /// The buffer after `put_pixel(x, y, color_index)`.
    pub open spec fn with_pixel(&self, x: u32, y: u32, color_index: usize) -> Seq<u32> {
        if x < self.width && y < self.height && color_index < COLOR_MAP_LEN {
            self.buffer@.update(self.offset(x as int, y as int), pack_rgb(self.color_map@[color_index as int]))
        } else {
            self.buffer@
        }
    }

    /// The buffer after `put_darkened_pixel(x, y, color_index, lightness)`.
    pub open spec fn with_darkened_pixel(&self, x: u32, y: u32, color_index: usize, lightness: u32) -> Seq<u32> {
        if x < self.width && y < self.height && color_index < COLOR_MAP_LEN {
            self.buffer@.update(
                self.offset(x as int, y as int),
                pack_rgb(darken_rgb(self.color_map@[color_index as int], lightness, self.pix_center)),
            )
        } else {
            self.buffer@
        }
    }

    /// Distinct screen positions have distinct buffer indices, inside the buffer.
    pub proof fn lemma_offsets_distinct(&self, px: int, py: int)
        requires
            self.wf(),
        ensures
            forall|x: int, y: int|
                0 <= x < self.width && 0 <= y < self.height && (x != px || y != py) && 0 <= px
                    < self.width && 0 <= py < self.height ==> #[trigger] self.offset(x, y)
                    != self.offset(px, py) && 0 <= self.offset(x, y) < self.buffer@.len(),
    {
        let w = self.width as int;
        let h = self.height as int;
        assert forall|x: int, y: int|
            0 <= x < w && 0 <= y < h && (x != px || y != py) && 0 <= px < w && 0 <= py < h
                implies #[trigger] self.offset(x, y) != self.offset(px, py)
                && 0 <= self.offset(x, y) < self.buffer@.len() by {
            assert(y * w + x != py * w + px) by (nonlinear_arith)
                requires 0 <= x < w, 0 <= y < h, 0 <= px < w, 0 <= py < h, x != px || y != py;
            assert(0 <= y * w + x < w * h) by (nonlinear_arith)
                requires 0 <= x < w, 0 <= y < h;
        }
    }

    /// A black screen of `scale` times the base size, with the VGA color map.
    pub fn new(scale: u32) -> (r: Video)
        requires
            1 <= scale <= 5,
        ensures
            r.wf(),
            r.scale == scale,
            forall|i: int| 0 <= i < COLOR_MAP_LEN ==> r.color_map@[i] == scale_entry_spec(
                #[trigger] VGA_PALETTE@[i],
            ),
            forall|i: int| 0 <= i < r.buffer@.len() ==> #[trigger] r.buffer@[i] == 0,
    {
        let width = BASE_WIDTH * scale;
        let height = BASE_HEIGHT * scale;
        let pix_width = width;
        let pix_height = height - STATUS_LINES * scale;
        let pix_center = pix_height / 2;
        assert(width * height <= 1_600_000) by (nonlinear_arith)
            requires width <= 1600, height <= 1000;
        let buffer: Vec<u32> = vec![0; (width * height) as usize];
        Video {
            scale,
            width,
            height,
            pix_width,
            pix_height,
            pix_center,
            color_map: build_color_map(),
            buffer,
        }
    }

    /// Writes the color `color_index` at `(x, y)`; a position off the buffer or an
    /// index off the color map is dropped.
    pub fn put_pixel(&mut self, x: u32, y: u32, color_index: usize)
        requires
            old(self).wf(),
        ensures
            final(self).wf(),
            final(self).same_frame(old(self)),
            final(self).buffer@ == old(self).with_pixel(x, y, color_index),
            final(self).keeps_all_but(old(self), x as int, y as int),
    {
        proof { self.lemma_offsets_distinct(x as int, y as int); }
        if x >= self.width || y >= self.height {
            return;
        }
        if color_index >= self.color_map.len() {
            return;
        }
        proof { lemma_offset_in(self.width, self.height, x, y); }
        let offset = (y * self.width + x) as usize;
        let c = pack(self.color_map[color_index]);
        self.buffer.set(offset, c);
    }

    /// Writes the color `color_index` at `(x, y)`, darkened by the light
    /// `lightness` against the horizon distance `pix_center`; a position off the
    /// buffer or an index off the color map is dropped.
    pub fn put_darkened_pixel(&mut self, x: u32, y: u32, color_index: usize, lightness: u32)
        requires
            old(self).wf(),
        ensures
            final(self).wf(),
            final(self).same_frame(old(self)),
            final(self).buffer@ == old(self).with_darkened_pixel(x, y, color_index, lightness),
            final(self).keeps_all_but(old(self), x as int, y as int),
    {
        proof { self.lemma_offsets_distinct(x as int, y as int); }
        if x >= self.width || y >= self.height {
            return;
        }
        if color_index >= self.color_map.len() {
            return;
        }
        proof { lemma_offset_in(self.width, self.height, x, y); }
        let offset = (y * self.width + x) as usize;
        let (r, g, b) = self.color_map[color_index];
        let horizon = self.pix_center;
        let c = pack((darken(r, lightness, horizon), darken(g, lightness, horizon), darken(b, lightness, horizon)));
        self.buffer.set(offset, c);
    }

    /// Fills the square of side `side` at `(sx, sy)` with `color_index`, as
    /// `put_pixel` does pixel by pixel.
    pub fn fill_square(&mut self, sx: u32, sy: u32, side: u32, color_index: usize)
        requires
            old(self).wf(),
            sx + side <= u32::MAX,
            sy + side <= u32::MAX,
        ensures
            final(self).wf(),
            final(self).same_frame(old(self)),
            forall|px: int, py: int|
                0 <= px < old(self).width && 0 <= py < old(self).height ==> #[trigger] final(self).buffer@[final(self).offset(px, py)]
                    == if in_square(px, py, sx as int, sy as int, side as int) && color_index < COLOR_MAP_LEN {
                    pack_rgb(old(self).color_map@[color_index as int])
                } else {
                    old(self).buffer@[old(self).offset(px, py)]
                },
    {
        let ghost orig = *self;
        let mut i: u32 = 0;
        while i < side
            invariant
                self.wf(),
                self.same_frame(&orig),
                i <= side,
                sx + side <= u32::MAX,
                sy + side <= u32::MAX,
                forall|px: int, py: int|
                    0 <= px < self.width && 0 <= py < self.height ==> #[trigger] self.buffer@[self.offset(px, py)]
                        == if in_square(px, py, sx as int, sy as int, side as int) && color_index < COLOR_MAP_LEN
                        && px - sx < i {
                        pack_rgb(orig.color_map@[color_index as int])
                    } else {
                        orig.buffer@[orig.offset(px, py)]
                    },
            decreases side - i,
        {
            let mut j: u32 = 0;
            while j < side
                invariant
                    self.wf(),
                    self.same_frame(&orig),
                    i < side,
                    j <= side,
                    sx + side <= u32::MAX,
                    sy + side <= u32::MAX,
                    forall|px: int, py: int|
                        0 <= px < self.width && 0 <= py < self.height ==> #[trigger] self.buffer@[self.offset(px, py)]
                            == if in_square(px, py, sx as int, sy as int, side as int) && color_index < COLOR_MAP_LEN
                            && (px - sx < i || (px - sx == i && py - sy < j)) {
                            pack_rgb(orig.color_map@[color_index as int])
                        } else {
                            orig.buffer@[orig.offset(px, py)]
                        },
                decreases side - j,
            {
                proof {
                    if sx + i < self.width && sy + j < self.height {
                        lemma_offset_in(self.width, self.height, (sx + i) as u32, (sy + j) as u32);
                    }
                }
                self.put_pixel(sx + i, sy + j, color_index);
                j = j + 1;
            }
            i = i + 1;
        }
    }
}

} // verus!
