use vstd::prelude::*;

use crate::video::{lemma_offset_in, pack_rgb, Video};

verus! {

/// A compiled sprite: the first and last visible columns in the sprite's own
/// coordinates, and for each visible column the offset of its run list in the
/// sprite's bytes.
pub struct SpriteShape {
    pub left_pix: u16,
    pub right_pix: u16,
    pub dataofs: Vec<u16>,
}

/// How much the sprite is enlarged against half the view height.
pub const SPRITE_SCALE_FACTOR: u32 = 2;

/// The destination of source index `i` under a fixed-point scale of `pixheight`
/// sixty-fourths per source step, shifted by `base`: `((i * pixheight) >> 6) + base`.
pub open spec fn fixed_scale(i: int, pixheight: int, base: int) -> int {
    i * pixheight / 64 + base
}

/// The fixed-point accumulator never moves backwards: a later source index
/// lands on the same or a later destination column or row.
pub proof fn lemma_fixed_scale_monotonic(i: int, j: int, pixheight: int, base: int)
    requires
        0 <= i <= j,
        0 <= pixheight,
    ensures
        fixed_scale(i, pixheight, base) <= fixed_scale(j, pixheight, base),
{
    assert(i * pixheight <= j * pixheight) by (nonlinear_arith)
        requires 0 <= i <= j, 0 <= pixheight;
}

/// Whether `c` is the packed color of palette index 0 or of a byte of `bytes`.
pub open spec fn sprite_color(v: Video, bytes: Seq<u8>, c: u32) -> bool {
    c == pack_rgb(v.color_map@[0]) || exists|i: int| 0 <= i < bytes.len() && c == pack_rgb(v.color_map@[#[trigger] bytes[i] as int])
}

impl Video {
    /// Every pixel either is as in `old` or holds a color of the sprite `bytes`
    /// (see `sprite_color`).
    pub open spec fn sprite_drawn(&self, old: &Video, bytes: Seq<u8>) -> bool {
        forall|x: int, y: int|
            0 <= x < self.width && 0 <= y < self.height ==> #[trigger] self.buffer@[self.offset(x, y)]
                == old.buffer@[old.offset(x, y)] || sprite_color(*old, bytes, self.buffer@[self.offset(x, y)])
    }
}

/// Byte `i` of `b`, or 0 past either end.
pub open spec fn byte_or_zero(b: Seq<u8>, i: int) -> u8 {
    if 0 <= i < b.len() { b[i] } else { 0 }
}

/// Takes the next byte of the `rest` last bytes of `b`: `(byte, rest - 1)`, or
/// `(0, 0)` when nothing is left.
fn next_byte(b: &[u8], rest: usize) -> (r: (u8, usize))
    requires
        rest <= b@.len(),
    ensures
        rest > 0 ==> r == (b@[b@.len() - rest], (rest - 1) as usize),
        rest == 0 ==> r == (0u8, 0usize),
{
    if rest == 0 {
        (0, 0)
    } else {
        (b[b.len() - rest], rest - 1)
    }
}

/// Takes the next little-endian 16-bit word of the `rest` last bytes of `b`,
/// missing bytes read as 0: `(word, bytes left)`.
fn next_word(b: &[u8], rest: usize) -> (r: (u16, usize))
    requires
        rest <= b@.len(),
    ensures
        r.1 <= rest,
        r.1 == if rest >= 2 { rest - 2 } else { 0 },
        r.0 == word_at(b@, rest as int),
        r.1 == after_word(rest as int),
        rest == 0 ==> r.0 == 0,
{
    let (lo, rest1) = next_byte(b, rest);
    let (hi, rest2) = next_byte(b, rest1);
    ((lo as u16) + 256 * (hi as u16), rest2)
}

/// The signed reading of a 16-bit word.
pub open spec fn signed_word(w: u16) -> int {
    if w < 32768 { w as int } else { w as int - 65536 }
}

fn as_signed(w: u16) -> (r: i32)
    ensures
        r == signed_word(w),
{
    if w < 32768 { w as i32 } else { w as i32 - 65536 }
}

/// The little-endian word at the start of the `rest` last bytes of `b`, missing
/// bytes read as 0.
pub open spec fn word_at(b: Seq<u8>, rest: int) -> int {
    byte_or_zero(b, b.len() - rest) as int + 256 * byte_or_zero(b, b.len() - rest + 1) as int
}

/// Bytes left after reading a word from the `rest` last ones.
pub open spec fn after_word(rest: int) -> int {
    if rest >= 2 { rest - 2 } else { 0 }
}

/// `buf` with rows `[y0, y1)` of column `x` of the screen of `v` set to `c`.
pub open spec fn fill_rows(v: Video, buf: Seq<u32>, x: int, y0: int, y1: int, c: u32) -> Seq<u32>
    decreases y1 - y0,
{
    if y0 >= y1 {
        buf
    } else {
        fill_rows(v, buf.update(v.offset(x, y0), c), x, y0 + 1, y1, c)
    }
}

/// Draws source rows `[j, endy)` of one run into column `x`: source row `j`
/// covers the destination rows from `fixed_scale(j, pixheight, upperedge)` up
/// to that of `j + 1`, colored by byte `newstart + j` (0 off the bytes); a row
/// that reaches below the view is clipped to it and ends the run.
pub open spec fn run_rows(
    v: Video,
    buf: Seq<u32>,
    x: int,
    bytes: Seq<u8>,
    newstart: int,
    j: int,
    endy: int,
    pixheight: int,
    upperedge: int,
) -> Seq<u32>
    decreases endy - j,
{
    if j >= endy {
        buf
    } else {
        let top = fixed_scale(j, pixheight, upperedge);
        let bottom = fixed_scale(j + 1, pixheight, upperedge);
        let c = pack_rgb(v.color_map@[byte_or_zero(bytes, newstart + j) as int]);
        if top != bottom && bottom > 0 {
            if bottom > v.pix_height {
                fill_rows(v, buf, x, top, v.pix_height as int, c)
            } else {
                run_rows(v, fill_rows(v, buf, x, top, bottom, c), x, bytes, newstart, j + 1, endy, pixheight, upperedge)
            }
        } else {
            run_rows(v, buf, x, bytes, newstart, j + 1, endy, pixheight, upperedge)
        }
    }
}

/// Draws the runs of a run list into column `x`, from the run whose doubled end
/// row `endy` was just read, the list going on in the `rest` last bytes: each
/// run then holds a signed color offset and a doubled start row; an end word of
/// 0 ends the list.
pub open spec fn runs_from(
    v: Video,
    buf: Seq<u32>,
    x: int,
    bytes: Seq<u8>,
    endy: int,
    rest: int,
    pixheight: int,
    upperedge: int,
) -> Seq<u32>
    decreases rest + if endy > 0 { 1int } else { 0int },
{
    if endy <= 0 || rest < 0 || rest > bytes.len() {
        buf
    } else {
        let r2 = after_word(rest);
        let newstart = signed_word(word_at(bytes, rest) as u16);
        let r3 = after_word(r2);
        let starty = word_at(bytes, r2) / 2;
        let buf2 = run_rows(v, buf, x, bytes, newstart, starty, endy / 2, pixheight, upperedge);
        runs_from(v, buf2, x, bytes, word_at(bytes, r3), after_word(r3), pixheight, upperedge)
    }
}

/// Draws destination column `x` from the run list at byte `start`.
pub open spec fn column_spec(v: Video, buf: Seq<u32>, x: int, start: int, bytes: Seq<u8>, pixheight: int, upperedge: int) -> Seq<u32> {
    let rest0 = if start <= bytes.len() { bytes.len() - start } else { 0 };
    runs_from(v, buf, x, bytes, word_at(bytes, rest0), after_word(rest0), pixheight, upperedge)
}

/// Draws destination columns `[a, b)`, each from the run list at byte `start`.
pub open spec fn draw_cols(v: Video, buf: Seq<u32>, a: int, b: int, start: int, bytes: Seq<u8>, pixheight: int, upperedge: int) -> Seq<u32>
    decreases b - a,
{
    if a >= b {
        buf
    } else {
        draw_cols(v, column_spec(v, buf, a, start, bytes, pixheight, upperedge), a + 1, b, start, bytes, pixheight, upperedge)
    }
}

impl Video {
    /// Draws one destination column `x` of a sprite from the run list that starts
    /// at byte `start` of `shape_bytes`, with rows scaled by `pixheight`
    /// sixty-fourths and shifted down by `upperedge`. Each run is a word holding
    /// twice the end row (0 ends the list), a signed word that added to a row
    /// gives the byte of that row's color, and a word holding twice the start row.
    fn draw_shape_column(
        &mut self,
        x: u32,
        start: usize,
        shape_bytes: &[u8],
        pixheight: u32,
        upperedge: u32,
        Ghost(geo): Ghost<Video>,
    )
        requires
            old(self).wf(),
            old(self).same_frame(&geo),
            x < old(self).pix_width,
            pixheight <= 1000,
            upperedge <= 1000,
        ensures
            final(self).wf(),
            final(self).same_frame(old(self)),
            final(self).unchanged_outside(old(self), x as int, 0, x + 1, old(self).pix_height as int),
            final(self).sprite_drawn(old(self), shape_bytes@),
            final(self).buffer@ == column_spec(
                geo,
                old(self).buffer@,
                x as int,
                start as int,
                shape_bytes@,
                pixheight as int,
                upperedge as int,
            ),
    {
        let ghost orig = *self;
        let ghost target = column_spec(geo, orig.buffer@, x as int, start as int, shape_bytes@, pixheight as int, upperedge as int);
        let mut rest: usize = if start <= shape_bytes.len() { shape_bytes.len() - start } else { 0 };
        let (mut endy, r1) = next_word(shape_bytes, rest);
        rest = r1;
        while endy > 0
            invariant
                self.wf(),
                self.same_frame(&orig),
                self.same_frame(&geo),
                self.unchanged_outside(&orig, x as int, 0, x + 1, orig.pix_height as int),
                self.sprite_drawn(&orig, shape_bytes@),
                x < self.pix_width,
                pixheight <= 1000,
                upperedge <= 1000,
                rest <= shape_bytes@.len(),
                runs_from(geo, self.buffer@, x as int, shape_bytes@, endy as int, rest as int, pixheight as int, upperedge as int)
                    == target,
            decreases rest + if endy > 0 { 1int } else { 0int },
        {
            let ghost rest0 = rest;
            let ghost endy0 = endy;
            let ghost buf_run0 = self.buffer@;
            endy = endy / 2;
            let (w1, r2) = next_word(shape_bytes, rest);
            let newstart = as_signed(w1);
            let (w2, r3) = next_word(shape_bytes, r2);
            rest = r3;
            let starty = w2 / 2;
            let ghost rtarget = run_rows(
                geo,
                buf_run0,
                x as int,
                shape_bytes@,
                newstart as int,
                starty as int,
                endy as int,
                pixheight as int,
                upperedge as int,
            );
            assert(runs_from(geo, buf_run0, x as int, shape_bytes@, endy0 as int, rest0 as int, pixheight as int, upperedge as int)
                == runs_from(geo, rtarget, x as int, shape_bytes@, word_at(shape_bytes@, r3 as int), after_word(r3 as int), pixheight as int, upperedge as int));
            let mut j: u32 = starty as u32;
            assert(j * pixheight <= 32768 * 1000) by (nonlinear_arith)
                requires j <= 32767, pixheight <= 1000;
            let mut ycnt: u32 = j * pixheight;
            let mut screndy: i32 = (ycnt / 64) as i32 + upperedge as i32;
            let mut pixy: u32 = screndy as u32;
            while j < endy as u32
                invariant
                    self.wf(),
                    self.same_frame(&orig),
                self.same_frame(&geo),
                    self.unchanged_outside(&orig, x as int, 0, x + 1, orig.pix_height as int),
                    self.sprite_drawn(&orig, shape_bytes@),
                    x < self.pix_width,
                    pixheight <= 1000,
                    upperedge <= 1000,
                    endy <= 32767,
                    j <= 32768,
                    -32768 <= newstart < 32768,
                    j <= endy ==> ycnt == j * pixheight,
                    j <= endy ==> screndy == ycnt / 64 + upperedge,
                    ycnt <= 32768 * 1000,
                    0 <= screndy,
                    j <= endy ==> pixy == screndy,
                    j <= endy ==> run_rows(geo, self.buffer@, x as int, shape_bytes@, newstart as int, j as int, endy as int,
                        pixheight as int, upperedge as int) == rtarget,
                    j > endy ==> self.buffer@ == rtarget,
                decreases 32768 - j,
            {
                let ghost j0 = j;
                let ghost buf_j0 = self.buffer@;
                let mut scrstarty = screndy;
                assert(ycnt + pixheight <= 32768 * 1000) by (nonlinear_arith)
                    requires ycnt == j * pixheight, j < 32767 + 1, j < endy, endy <= 32767,
                        pixheight <= 1000;
                ycnt = ycnt + pixheight;
                screndy = (ycnt / 64) as i32 + upperedge as i32;
                assert(scrstarty <= screndy);
                if scrstarty != screndy && screndy > 0 {
                    let index: i32 = newstart + j as i32;
                    let col: u8 = if index >= 0 && (index as usize) < shape_bytes.len() {
                        let b = shape_bytes[index as usize];
                        assert(shape_bytes@[index as int] == b);
                        b
                    } else {
                        0
                    };
                    assert(col == byte_or_zero(shape_bytes@, newstart + j0));
                    assert(sprite_color(orig, shape_bytes@, pack_rgb(orig.color_map@[col as int])));
                    let ghost c = pack_rgb(orig.color_map@[col as int]);
                    if scrstarty < 0 {
                        scrstarty = 0;
                    }
                    if screndy > self.pix_height as i32 {
                        screndy = self.pix_height as i32;
                        j = endy as u32;
                    }
                    let ghost s0 = scrstarty;
                    let ghost fbuf0 = self.buffer@;
                    while scrstarty < screndy
                        invariant
                            self.wf(),
                            self.same_frame(&orig),
                self.same_frame(&geo),
                            self.unchanged_outside(&orig, x as int, 0, x + 1, orig.pix_height as int),
                            self.sprite_drawn(&orig, shape_bytes@),
                            sprite_color(orig, shape_bytes@, pack_rgb(orig.color_map@[col as int])),
                            x < self.pix_width,
                            0 <= scrstarty,
                            screndy <= self.pix_height,
                            pixy == scrstarty,
                            s0 <= screndy ==> scrstarty <= screndy,
                            c == pack_rgb(orig.color_map@[col as int]),
                            fill_rows(geo, self.buffer@, x as int, scrstarty as int, screndy as int, c)
                                == fill_rows(geo, fbuf0, x as int, s0 as int, screndy as int, c),
                        decreases screndy - scrstarty,
                    {
                        let ghost before = *self;
                        self.put_pixel(x, pixy, col as usize);
                        proof {
                            lemma_offset_in(before.width, before.height, x, pixy);
                            assert forall|px: int, py: int|
                                0 <= px < self.width && 0 <= py < self.height implies #[trigger] self.buffer@[self.offset(
                                px,
                                py,
                            )] == orig.buffer@[orig.offset(px, py)] || sprite_color(
                                orig,
                                shape_bytes@,
                                self.buffer@[self.offset(px, py)],
                            ) by {
                                if px == x && py == pixy {
                                    assert(self.buffer@[self.offset(px, py)] == pack_rgb(orig.color_map@[col as int]));
                                } else {
                                    assert(self.buffer@[self.offset(px, py)] == before.buffer@[before.offset(px, py)]);
                                }
                            }
                        }
                        pixy = pixy + 1;
                        scrstarty = scrstarty + 1;
                    }
                    assert(self.buffer@ == fill_rows(geo, fbuf0, x as int, s0 as int, screndy as int, c));
                }
                assert((j0 + 1) * pixheight == j0 * pixheight + pixheight) by (nonlinear_arith);
                j = j + 1;
            }
            let (w3, r4) = next_word(shape_bytes, rest);
            endy = w3;
            rest = r4;
            assert(rest < rest0 || endy == 0);
        }
    }
}

/// Draws source columns `[i, right]` of a sprite on the screen of `v`, whose
/// visible columns take their run lists in turn from `dataofs`, from entry
/// `cmd` on: source column `i` covers the destination columns from
/// `fixed_scale(i, pixheight, actx)` up to that of `i + 1`, each drawn with
/// `column_spec`; a source column that covers no destination column uses no
/// entry, one that reaches the right edge of the view is clipped to it and ends
/// the sprite, as does one that starts beyond it. A missing entry reads as an
/// empty list.
pub open spec fn cols_from(v: Video, buf: Seq<u32>, i: int, right: int, cmd: int, dataofs: Seq<u16>, bytes: Seq<u8>) -> Seq<u32>
    decreases 65537 - i,
{
    let ph = v.sprite_pixheight();
    let actx = v.sprite_actx();
    let ue = v.sprite_upperedge();
    if i > right || i < 0 || i >= 65537 {
        buf
    } else {
        let lpix = fixed_scale(i, ph, actx);
        if lpix >= v.pix_width {
            buf
        } else {
            let rpix = fixed_scale(i + 1, ph, actx);
            let start = if 0 <= cmd < dataofs.len() { dataofs[cmd] as int } else { bytes.len() as int };
            let cmd2 = if 0 <= cmd < dataofs.len() { cmd + 1 } else { cmd };
            if lpix != rpix && rpix > 0 {
                if rpix > v.pix_width {
                    draw_cols(v, buf, lpix, v.pix_width as int, start, bytes, ph, ue)
                } else {
                    cols_from(v, draw_cols(v, buf, lpix, rpix, start, bytes, ph, ue), i + 1, right, cmd2, dataofs, bytes)
                }
            } else {
                cols_from(v, buf, i + 1, right, cmd, dataofs, bytes)
            }
        }
    }
}

/// The buffer of `v` after drawing the sprite of visible columns
/// `[left, right]`, run-list offsets `dataofs` and bytes `bytes`.
pub open spec fn sprite_spec(v: Video, left: int, right: int, dataofs: Seq<u16>, bytes: Seq<u8>) -> Seq<u32> {
    cols_from(v, v.buffer@, left, right, 0, dataofs, bytes)
}

impl Video {
    /// Fixed-point scale of the sprite: sixty-fourths of a destination pixel
    /// per source pixel, twice half the view height.
    pub open spec fn sprite_pixheight(&self) -> int {
        ((self.pix_height + 1) / 2) * SPRITE_SCALE_FACTOR as int
    }

    /// Destination column of the sprite's source column 0.
    pub open spec fn sprite_actx(&self) -> int {
        self.pix_width / 2 - (self.pix_height + 1) / 2
    }

    /// Destination row of the sprite's source row 0.
    pub open spec fn sprite_upperedge(&self) -> int {
        self.pix_height / 2 - (self.pix_height + 1) / 2
    }

    /// Draws a sprite scaled to fill the view's height, centered horizontally, the
    /// foot of its box on the bottom of the view. Source column `i` of
    /// `[left_pix, right_pix]` covers the destination columns from
    /// `fixed_scale(i, pixheight, actx)` up to the next one, where `pixheight` is
    /// twice half the view height and `actx` the center column less that half.
    /// Column `k` of the visible range takes its run list at byte `dataofs[k]`;
    /// a missing offset or byte reads as an empty list or 0. Only the view's
    /// columns from that of `left_pix` to that of `right_pix + 1` are drawn on.
    pub fn simple_scale_shape(&mut self, left_pix: u16, right_pix: u16, dataofs: &[u16], shape_bytes: &[u8])
        requires
            old(self).wf(),
        ensures
            final(self).wf(),
            final(self).same_frame(old(self)),
            final(self).unchanged_outside(
                old(self),
                0,
                0,
                old(self).pix_width as int,
                old(self).pix_height as int,
            ),
            final(self).unchanged_outside(
                old(self),
                fixed_scale(left_pix as int, old(self).sprite_pixheight(), old(self).sprite_actx()),
                0,
                fixed_scale(right_pix + 1, old(self).sprite_pixheight(), old(self).sprite_actx()),
                old(self).pix_height as int,
            ),
            final(self).sprite_drawn(old(self), shape_bytes@),
            final(self).buffer@ == sprite_spec(*old(self), left_pix as int, right_pix as int, dataofs@, shape_bytes@),
    {
        let ghost orig = *self;
        let ghost target = sprite_spec(orig, left_pix as int, right_pix as int, dataofs@, shape_bytes@);
        let ghost x0 = fixed_scale(left_pix as int, orig.sprite_pixheight(), orig.sprite_actx());
        let ghost x1 = fixed_scale(right_pix + 1, orig.sprite_pixheight(), orig.sprite_actx());
        let xcenter = self.pix_width / 2;
        let height = self.pix_height + 1;
        let scale = height / 2;
        let pixheight = scale * SPRITE_SCALE_FACTOR;
        let actx = xcenter - scale;
        let upperedge = self.pix_height / 2 - scale;
        let mut cmd: usize = 0;
        let mut i: u32 = left_pix as u32;
        assert(i * pixheight <= 65535 * 1000) by (nonlinear_arith)
            requires i <= 65535, pixheight <= 1000;
        let mut pixcnt: u32 = i * pixheight;
        let mut rpix: u32 = pixcnt / 64 + actx;
        while i <= right_pix as u32
            invariant
                self.wf(),
                self.same_frame(&orig),
                self.unchanged_outside(&orig, 0, 0, orig.pix_width as int, orig.pix_height as int),
                self.unchanged_outside(&orig, x0, 0, x1, orig.pix_height as int),
                self.sprite_drawn(&orig, shape_bytes@),
                pixheight == orig.sprite_pixheight(),
                actx == orig.sprite_actx(),
                x0 == fixed_scale(left_pix as int, pixheight as int, actx as int),
                x1 == fixed_scale(right_pix + 1, pixheight as int, actx as int),
                x0 <= rpix,
                left_pix <= i,
                i <= right_pix ==> rpix == fixed_scale(i as int, pixheight as int, actx as int),
                pixheight <= 1000,
                upperedge <= 1000,
                actx <= 1000,
                i <= 65537,
                i <= right_pix ==> pixcnt == i * pixheight,
                pixcnt <= 65536 * 1000,
                rpix <= 65536 * 1000 / 64 + 1000,
                upperedge == orig.sprite_upperedge(),
                i <= right_pix ==> cols_from(orig, self.buffer@, i as int, right_pix as int, cmd as int, dataofs@, shape_bytes@)
                    == target,
                i > right_pix ==> self.buffer@ == target,
            decreases 65537 - i,
        {
            let mut lpix = rpix;
            if lpix >= self.pix_width {
                assert(self.buffer@ == target);
                i = right_pix as u32 + 1;
            } else {
                let ghost cmd0 = cmd;
                let ghost buf_i0 = self.buffer@;
                let ghost i0 = i;
                assert(pixcnt + pixheight <= 65536 * 1000) by (nonlinear_arith)
                    requires pixcnt == i * pixheight, i <= 65535, pixheight <= 1000;
                pixcnt = pixcnt + pixheight;
                rpix = pixcnt / 64 + actx;
                proof {
                    lemma_fixed_scale_monotonic(left_pix as int, i + 1, pixheight as int, actx as int);
                    lemma_fixed_scale_monotonic(i + 1, right_pix + 1, pixheight as int, actx as int);
                    assert(pixcnt == (i + 1) * pixheight) by (nonlinear_arith)
                        requires pixcnt == i * pixheight + pixheight;
                }
                if lpix != rpix && rpix > 0 {
                    if rpix > self.pix_width {
                        rpix = self.pix_width;
                        i = right_pix as u32 + 1;
                    }
                    let start: usize = if cmd < dataofs.len() { dataofs[cmd] as usize } else { shape_bytes.len() };
                    if cmd < dataofs.len() {
                        cmd = cmd + 1;
                    }
                    let ghost lpix0 = lpix;
                    while lpix < rpix
                        invariant
                            self.wf(),
                            self.same_frame(&orig),
                            self.unchanged_outside(&orig, 0, 0, orig.pix_width as int, orig.pix_height as int),
                            self.unchanged_outside(&orig, x0, 0, x1, orig.pix_height as int),
                            self.sprite_drawn(&orig, shape_bytes@),
                            pixheight <= 1000,
                            upperedge <= 1000,
                            rpix <= self.pix_width,
                            x0 <= lpix,
                            rpix <= x1,
                            upperedge == orig.sprite_upperedge(),
                            pixheight == orig.sprite_pixheight(),
                            lpix0 <= lpix,
                            draw_cols(orig, self.buffer@, lpix as int, rpix as int, start as int, shape_bytes@, pixheight as int, upperedge as int)
                                == draw_cols(orig, buf_i0, lpix0 as int, rpix as int, start as int, shape_bytes@, pixheight as int, upperedge as int),
                        decreases rpix - lpix,
                    {
                        self.draw_shape_column(lpix, start, shape_bytes, pixheight, upperedge, Ghost(orig));
                        lpix = lpix + 1;
                    }
                }
                assert((i0 + 1) * pixheight == i0 * pixheight + pixheight) by (nonlinear_arith);
                proof {
                    if i0 + 1 > right_pix && i == i0 {
                        assert(cols_from(orig, self.buffer@, i0 + 1, right_pix as int, cmd as int, dataofs@, shape_bytes@)
                            == self.buffer@);
                    }
                }
                i = i + 1;
            }
        }
    }
}

} // verus!
