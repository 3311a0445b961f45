use vstd::prelude::*;

use crate::constants::WALLPIC_WIDTH;
use crate::map::TileMap;
use crate::raycast::{cast_rays, in_map, ray_hit_spec, valid_dir, CENTER_LIMIT};
use crate::sprite::{fixed_scale, sprite_spec, SpriteShape};
use crate::video::{darken_rgb, lemma_offset_in, pack_rgb, Video, COLOR_MAP_LEN};

verus! {

/// Palette index of the floor.
pub const VGA_FLOOR_COLOR: usize = 0x19;

/// Number of levels that have a ceiling color.
pub const CEILING_COLOR_COUNT: usize = 60;

/// Palette index of the ceiling of each level.
pub const VGA_CEILING_COLORS: [usize; 60] = [
    0x1d, 0x1d, 0x1d, 0x1d, 0x1d, 0x1d, 0x1d, 0x1d, 0x1d, 0xbf, 0x4e, 0x4e, 0x4e, 0x1d, 0x8d, 0x4e,
    0x1d, 0x2d, 0x1d, 0x8d, 0x1d, 0x1d, 0x1d, 0x1d, 0x1d, 0x2d, 0xdd, 0x1d, 0x1d, 0x98, 0x1d, 0x9d,
    0x2d, 0xdd, 0xdd, 0x9d, 0x2d, 0x4d, 0x1d, 0xdd, 0x7d, 0x1d, 0x2d, 0x2d, 0xdd, 0xd7, 0x1d, 0x1d,
    0x1d, 0x2d, 0x1d, 0x1d, 0x1d, 0x1d, 0xdd, 0xdd, 0x7d, 0xdd, 0xdd, 0xdd,
];

/// Texels in a wall texture: a square of `WALLPIC_WIDTH`, column by column.
pub const WALL_TEXTURE_LEN: usize = 4096;

/// What the ray of one screen column struck: the wall's number, whether it
/// last crossed a horizontal grid line, the texture column it meets, and the
/// projected half-height of the wall in pixels.
#[derive(Clone, Copy, Debug)]
pub struct Hit {
    pub tile: u16,
    pub horizontal: bool,
    pub tex_x: usize,
    pub height: u32,
}

/// The texture of a hit wall: walls come in pairs, the even one for faces
/// struck across a horizontal grid line and the odd one for the others.
pub open spec fn wall_texture_spec(tile: u16, horizontal: bool) -> int {
    if horizontal { (tile - 1) * 2 } else { (tile - 1) * 2 + 1 }
}

/// A hit that can be drawn with `textures`: a wall number from 1, a texture
/// column inside the texture, and a texture of full size.
pub open spec fn drawable_hit(hit: Hit, textures: Seq<Vec<u8>>) -> bool {
    &&& hit.tile >= 1
    &&& hit.tex_x < WALLPIC_WIDTH
    &&& wall_texture_spec(hit.tile, hit.horizontal) < textures.len()
    &&& textures[wall_texture_spec(hit.tile, hit.horizontal)]@.len() == WALL_TEXTURE_LEN
}

/// The texture of a hit wall (see `wall_texture_spec`).
pub fn wall_texture(tile: u16, horizontal: bool) -> (r: usize)
    requires
        tile >= 1,
    ensures
        r == wall_texture_spec(tile, horizontal),
{
    if horizontal {
        (tile as usize - 1) * 2
    } else {
        (tile as usize - 1) * 2 + 1
    }
}

/// The texture row for screen row `k` of a wall span `2 * half` rows high:
/// `k * (WALLPIC_WIDTH / 2) / half`, the texture's height spread evenly.
pub open spec fn texture_row(k: int, half: int) -> int {
    k * (WALLPIC_WIDTH / 2) as int / half
}

/// The color that the sky-and-floor pass leaves at `(x, y)` of `v`: above the
/// middle row the ceiling color, below it the floor color, each darkened by its
/// distance from the horizon; the rows under the view are left as they are. A
/// ceiling index off the color map leaves the ceiling as it is.
pub open spec fn sky_floor_color(v: Video, ceiling: usize, x: int, y: int) -> u32 {
    if y < v.pix_height / 2 {
        if ceiling < COLOR_MAP_LEN {
            pack_rgb(darken_rgb(v.color_map@[ceiling as int], (v.pix_center - y) as u32, v.pix_center))
        } else {
            v.buffer@[v.offset(x, y)]
        }
    } else if y < v.pix_height {
        pack_rgb(darken_rgb(v.color_map@[VGA_FLOOR_COLOR as int], (y - v.pix_center) as u32, v.pix_center))
    } else {
        v.buffer@[v.offset(x, y)]
    }
}

/// Whether row `y` lies in the wall of `hit`: `[pix_center - h, pix_center + h)`
/// with `h` its height, clipped to the view.
pub open spec fn in_wall_span(v: Video, hit: Hit, y: int) -> bool {
    &&& v.pix_center - hit.height <= y < v.pix_center + hit.height
    &&& y < v.pix_height
}

/// The color of row `y` of the wall of `hit`: row `k` from the top of the wall
/// shows texel `texture_row(k, h)` of the texture column `tex_x`, darkened by
/// the wall's height `h`.
pub open spec fn wall_color(v: Video, hit: Hit, textures: Seq<Vec<u8>>, y: int) -> u32 {
    let c = hit.height as int;
    let k = y - (v.pix_center - c);
    let tex = textures[wall_texture_spec(hit.tile, hit.horizontal)]@;
    pack_rgb(
        darken_rgb(
            v.color_map@[tex[texture_row(k, c) + hit.tex_x * WALLPIC_WIDTH] as int],
            hit.height,
            v.pix_center,
        ),
    )
}

/// Paints every column's ceiling and floor (see `sky_floor_color`).
fn fill_sky_floor(video: &mut Video, ceiling: usize)
    requires
        old(video).wf(),
    ensures
        final(video).wf(),
        final(video).same_frame(old(video)),
        forall|x: int, y: int|
            0 <= x < old(video).width && 0 <= y < old(video).height ==> #[trigger] final(video).buffer@[final(video).offset(x, y)] == sky_floor_color(*old(video), ceiling, x, y),
{
    let ghost orig = *video;
    let half = video.pix_height / 2;
    let mut x: u32 = 0;
    while x < video.pix_width
        invariant
            video.wf(),
            video.same_frame(&orig),
            half == video.pix_height / 2,
            x <= video.pix_width,
            forall|xx: int, yy: int|
                0 <= xx < video.width && 0 <= yy < video.height ==> #[trigger] video.buffer@[video.offset(xx, yy)]
                    == if xx < x {
                    sky_floor_color(orig, ceiling, xx, yy)
                } else {
                    orig.buffer@[orig.offset(xx, yy)]
                },
        decreases video.pix_width - x,
    {
        let mut y: u32 = 0;
        while y < video.pix_height
            invariant
                video.wf(),
                video.same_frame(&orig),
                half == video.pix_height / 2,
                x < video.pix_width,
                y <= video.pix_height,
                forall|xx: int, yy: int|
                    0 <= xx < video.width && 0 <= yy < video.height ==> #[trigger] video.buffer@[video.offset(xx, yy)]
                        == if xx < x || (xx == x && yy < y) {
                        sky_floor_color(orig, ceiling, xx, yy)
                    } else {
                        orig.buffer@[orig.offset(xx, yy)]
                    },
            decreases video.pix_height - y,
        {
            proof {
                lemma_offset_in(video.width, video.height, x, y);
            }
            let ghost before = *video;
            if y < half {
                video.put_darkened_pixel(x, y, ceiling, video.pix_center - y);
            } else {
                video.put_darkened_pixel(x, y, VGA_FLOOR_COLOR, y - video.pix_center);
            }
            assert(before.buffer@[before.offset(x as int, y as int)] == orig.buffer@[orig.offset(x as int, y as int)]);
            assert(video.buffer@[video.offset(x as int, y as int)] == sky_floor_color(orig, ceiling, x as int, y as int));
            y = y + 1;
        }
        x = x + 1;
    }
}

/// Paints every column's wall from its hit (see `in_wall_span` and `wall_color`).
fn draw_walls(video: &mut Video, hits: &[Hit], textures: &[Vec<u8>])
    requires
        old(video).wf(),
        hits@.len() == old(video).pix_width,
        forall|i: int| 0 <= i < hits@.len() ==> drawable_hit(#[trigger] hits@[i], textures@),
    ensures
        final(video).wf(),
        final(video).same_frame(old(video)),
        forall|x: int, y: int|
            0 <= x < old(video).width && 0 <= y < old(video).height ==> #[trigger] final(video).buffer@[final(video).offset(x, y)] == if in_wall_span(*old(video), hits@[x], y) {
                wall_color(*old(video), hits@[x], textures@, y)
            } else {
                old(video).buffer@[old(video).offset(x, y)]
            },
{
    let ghost orig = *video;
    let mut x: u32 = 0;
    while x < video.pix_width
        invariant
            video.wf(),
            video.same_frame(&orig),
            x <= video.pix_width,
            hits@.len() == video.pix_width,
            forall|i: int| 0 <= i < hits@.len() ==> drawable_hit(#[trigger] hits@[i], textures@),
            forall|xx: int, yy: int|
                0 <= xx < video.width && 0 <= yy < video.height ==> #[trigger] video.buffer@[video.offset(xx, yy)]
                    == if xx < x && in_wall_span(orig, hits@[xx], yy) {
                    wall_color(orig, hits@[xx], textures@, yy)
                } else {
                    orig.buffer@[orig.offset(xx, yy)]
                },
        decreases video.pix_width - x,
    {
        let hit = hits[x as usize];
        assert(drawable_hit(hits@[x as int], textures@));
        let texture = &textures[wall_texture(hit.tile, hit.horizontal)];
        let current: u64 = hit.height as u64;
        let xoff: usize = hit.tex_x * WALLPIC_WIDTH;
        let center: u64 = video.pix_center as u64;
        let top: u64 = if center > current { center - current } else { 0 };
        let bottom: u64 = if center + current < video.pix_height as u64 {
            center + current
        } else {
            video.pix_height as u64
        };
        let mut y: u64 = top;
        while y < bottom
            invariant
                video.wf(),
                video.same_frame(&orig),
                x < video.pix_width,
                hits@.len() == video.pix_width,
                hit == hits@[x as int],
                *texture == textures@[wall_texture_spec(hit.tile, hit.horizontal)],
                bottom <= video.pix_height,
                top <= y,
                current == hit.height as u64,
                center == video.pix_center,
                top == if center > current { center - current } else { 0 },
                bottom == if center + current < video.pix_height {
                    center + current
                } else {
                    video.pix_height as int
                },
                xoff == hit.tex_x * WALLPIC_WIDTH,
                hit.tex_x < WALLPIC_WIDTH,
                texture@.len() == WALL_TEXTURE_LEN,
                forall|xx: int, yy: int|
                    0 <= xx < video.width && 0 <= yy < video.height ==> #[trigger] video.buffer@[video.offset(xx, yy)]
                        == if (xx < x || (xx == x && yy < y)) && in_wall_span(orig, hits@[xx], yy) {
                        wall_color(orig, hits@[xx], textures@, yy)
                    } else {
                        orig.buffer@[orig.offset(xx, yy)]
                    },
            decreases bottom - y,
        {
            let k: u64 = y + current - center;
            assert(k < 2 * current);
            assert((k as int) * 32 / (current as int) < 64) by (nonlinear_arith)
                requires k < 2 * current, current > 0;
            let ytex: usize = (k * 32 / current) as usize;
            let color_index = texture[ytex + xoff] as usize;
            proof {
                lemma_offset_in(video.width, video.height, x, y as u32);
            }
            video.put_darkened_pixel(x, y as u32, color_index, hit.height);
            y = y + 1;
        }
        x = x + 1;
    }
}

/// Draws one frame of the world: first each column's ceiling and floor
/// (`sky_floor_color`, with the ceiling color of `level`), then over them each
/// column's wall from its hit in `hits` (`in_wall_span`, `wall_color`).
pub fn draw_world(video: &mut Video, level: usize, hits: &[Hit], textures: &[Vec<u8>])
    requires
        old(video).wf(),
        level < CEILING_COLOR_COUNT,
        hits@.len() == old(video).pix_width,
        forall|i: int| 0 <= i < hits@.len() ==> drawable_hit(#[trigger] hits@[i], textures@),
    ensures
        final(video).wf(),
        final(video).same_frame(old(video)),
        forall|x: int, y: int|
            0 <= x < old(video).width && 0 <= y < old(video).height ==> #[trigger] final(video).buffer@[final(video).offset(x, y)] == if in_wall_span(*old(video), hits@[x], y) {
                wall_color(*old(video), hits@[x], textures@, y)
            } else {
                sky_floor_color(*old(video), VGA_CEILING_COLORS@[level as int], x, y)
            },
{
    let ceiling = VGA_CEILING_COLORS[level];
    fill_sky_floor(video, ceiling);
    draw_walls(video, hits, textures);
}

/// Whether `hit` can be drawn with `textures` (see `drawable_hit`).
pub fn is_drawable(hit: &Hit, textures: &[Vec<u8>]) -> (r: bool)
    ensures
        r == drawable_hit(*hit, textures@),
{
    if hit.tile < 1 || hit.tex_x >= WALLPIC_WIDTH {
        return false;
    }
    let id = wall_texture(hit.tile, hit.horizontal);
    id < textures.len() && textures[id].len() == WALL_TEXTURE_LEN
}

/// Casts one ray per screen column from `(pos_x, pos_y)` along `dirs` (see
/// `cast_rays`) and, when every hit can be drawn with `textures`, draws the
/// world from them (see `draw_world`) and returns true. Otherwise, as when a
/// ray leaves a map without an enclosing wall, it draws nothing and returns
/// false.
pub fn draw_scene(
    video: &mut Video,
    level: usize,
    map: &TileMap,
    pos_x: i64,
    pos_y: i64,
    dirs: &[(i64, i64)],
    textures: &[Vec<u8>],
) -> (r: bool)
    requires
        old(video).wf(),
        map.wf(),
        level < CEILING_COLOR_COUNT,
        in_map(pos_x, pos_y),
        forall|i: int| 0 <= i < dirs@.len() ==> valid_dir(#[trigger] dirs@[i].0, dirs@[i].1),
        dirs@.len() == old(video).pix_width,
    ensures
        final(video).wf(),
        final(video).same_frame(old(video)),
        r == forall|i: int|
            0 <= i < dirs@.len() ==> drawable_hit(
                #[trigger] ray_hit_spec(map, pos_x, pos_y, dirs@[i].0, dirs@[i].1, old(video).pix_center).0,
                textures@,
            ),
        r ==> forall|x: int, y: int|
            0 <= x < old(video).width && 0 <= y < old(video).height ==> #[trigger] final(video).buffer@[final(video).offset(x, y)]
                == ({
                let hit = ray_hit_spec(map, pos_x, pos_y, dirs@[x].0, dirs@[x].1, old(video).pix_center).0;
                if in_wall_span(*old(video), hit, y) {
                    wall_color(*old(video), hit, textures@, y)
                } else {
                    sky_floor_color(*old(video), VGA_CEILING_COLORS@[level as int], x, y)
                }
            }),
        !r ==> final(video).buffer@ == old(video).buffer@,
{
    let ghost v0 = *video;
    let hits = cast_rays(map, pos_x, pos_y, dirs, video.pix_center);
    let mut i: usize = 0;
    while i < hits.len()
        invariant
            *video == v0,
            v0.wf(),
            i <= hits@.len(),
            hits@.len() == dirs@.len(),
            forall|k: int| 0 <= k < hits@.len() ==> #[trigger] hits@[k] == ray_hit_spec(map, pos_x, pos_y, dirs@[k].0, dirs@[k].1, video.pix_center).0,
            forall|k: int| 0 <= k < i ==> drawable_hit(#[trigger] hits@[k], textures@),
        decreases hits@.len() - i,
    {
        if !is_drawable(&hits[i], textures) {
            assert(!drawable_hit(ray_hit_spec(map, pos_x, pos_y, dirs@[i as int].0, dirs@[i as int].1, video.pix_center).0, textures@));
            return false;
        }
        i = i + 1;
    }
    assert forall|k: int| 0 <= k < dirs@.len() implies drawable_hit(
        #[trigger] ray_hit_spec(map, pos_x, pos_y, dirs@[k].0, dirs@[k].1, video.pix_center).0,
        textures@,
    ) by {
        assert(drawable_hit(hits@[k], textures@));
    }
    draw_world(video, level, hits.as_slice(), textures);
    true
}

/// Draws the weapon sprite over the view, as `Video::simple_scale_shape` does
/// with the shape's columns and run-list offsets.
pub fn draw_weapon(video: &mut Video, shape: &SpriteShape, shape_bytes: &[u8])
    requires
        old(video).wf(),
    ensures
        final(video).wf(),
        final(video).same_frame(old(video)),
        final(video).unchanged_outside(
            old(video),
            0,
            0,
            old(video).pix_width as int,
            old(video).pix_height as int,
        ),
        final(video).unchanged_outside(
            old(video),
            fixed_scale(shape.left_pix as int, old(video).sprite_pixheight(), old(video).sprite_actx()),
            0,
            fixed_scale(shape.right_pix + 1, old(video).sprite_pixheight(), old(video).sprite_actx()),
            old(video).pix_height as int,
        ),
        final(video).sprite_drawn(old(video), shape_bytes@),
        final(video).buffer@ == sprite_spec(
            *old(video),
            shape.left_pix as int,
            shape.right_pix as int,
            shape.dataofs@,
            shape_bytes@,
        ),
{
    video.simple_scale_shape(shape.left_pix, shape.right_pix, shape.dataofs.as_slice(), shape_bytes);
}

} // verus!
