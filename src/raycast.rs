use vstd::prelude::*;

use crate::constants::{MAP_HEIGHT, MAP_WIDTH, WALLPIC_WIDTH};
use crate::map::{Tile, TileMap, BOUNDARY_WALL};
use crate::render::Hit;
use vstd::arithmetic::div_mod::lemma_fundamental_div_mod_converse;

verus! {

/// One tile in the fixed-point coordinates of the ray caster.
pub const POS_ONE: i64 = 65536;

/// Largest magnitude of a ray direction component; a direction is given with
/// `POS_ONE` standing for one tile per unit of distance.
pub const DIR_LIMIT: i64 = 131072;

/// Largest horizon distance, in pixels, that a projection is asked for.
pub const CENTER_LIMIT: u32 = 100_000;

/// A position that the ray caster accepts: inside the map.
pub open spec fn in_map(pos_x: i64, pos_y: i64) -> bool {
    0 <= pos_x < MAP_WIDTH * POS_ONE && 0 <= pos_y < MAP_HEIGHT * POS_ONE
}

/// A direction that the ray caster accepts: not zero, each component at most
/// `DIR_LIMIT` in magnitude.
pub open spec fn valid_dir(dir_x: i64, dir_y: i64) -> bool {
    &&& -DIR_LIMIT <= dir_x <= DIR_LIMIT
    &&& -DIR_LIMIT <= dir_y <= DIR_LIMIT
    &&& (dir_x != 0 || dir_y != 0)
}

/// `floor(a / d)` for `d > 0`, on integers of either sign.
fn floor_div(a: i64, d: i64) -> (r: i64)
    requires
        0 < d <= 0x10_0000_0000_0000,
        -0x10_0000_0000_0000 <= a <= 0x10_0000_0000_0000,
    ensures
        r * d <= a < r * d + d,
        r == a as int / d as int,
        a >= 0 ==> 0 <= r <= a,
        a < 0 ==> a <= r < 0,
{

    if a >= 0 {
        let q = a / d;
        assert(q * d <= a < q * d + d && 0 <= q <= a) by (nonlinear_arith)
            requires q as int == (a as int) / (d as int), a >= 0, d > 0;
        proof {
            lemma_fundamental_div_mod_converse(a as int, d as int, q as int, a - q * d);
        }
        q
    } else {
        let b: i64 = -a;
        let q = (b + d - 1) / d;
        assert(q * d >= b && q * d < b + d && 0 < q <= b) by (nonlinear_arith)
            requires q as int == (b as int + d as int - 1) / (d as int), b > 0, d > 0;
        assert((-q) * d == -(q * d)) by (nonlinear_arith);
        proof {
            lemma_fundamental_div_mod_converse(a as int, d as int, -q as int, a + q * d);
        }
        -q
    }
}

/// The hit of a ray that crossed its last grid line at distance `num / den`
/// (in direction lengths): half-height `pix_center * den / max(num, 1)` kept
/// within `[1, u32::MAX]`, and texture column `frac * WALLPIC_WIDTH / POS_ONE`,
/// where `frac` is the struck point's other coordinate,
/// `floor((pos * den + num * dir) / den)`, within its tile.
pub open spec fn hit_spec(tile: u16, horizontal: bool, num: int, den: int, pos: int, dir: int, pix_center: u32) -> Hit {
    let n = if num == 0 { 1 } else { num };
    let h = pix_center as int * den / n;
    let along = (pos * den + num * dir) / den;
    let frac = along % (POS_ONE as int);
    Hit {
        tile,
        horizontal,
        tex_x: (frac * WALLPIC_WIDTH as int / POS_ONE as int) as usize,
        height: if h < 1 { 1 } else if h > 0xffff_ffff { 0xffff_ffff } else { h as u32 },
    }
}

/// Magnitude of a direction component.
pub open spec fn abs_dir(d: i64) -> int {
    if d < 0 { -d } else { d as int }
}

/// The way a ray steps along an axis: -1 for a negative component, else 1.
pub open spec fn step_sign(d: i64) -> int {
    if d < 0 { -1 } else { 1 }
}

/// Distance, in fixed-point units, from `pos` to the first grid line met going
/// the way of `d` (backwards, the line of its own tile).
pub open spec fn first_line(pos: i64, d: i64) -> int {
    let c = pos as int / POS_ONE as int;
    if d > 0 { (c + 1) * POS_ONE - pos } else { pos - c * POS_ONE }
}

/// The grid walk of a ray that has crossed `kx` vertical and `ky` horizontal
/// grid lines: it crosses next the nearer line (the vertical one when the two
/// distances `nx / |dir_x|` and `ny / |dir_y|` are strictly ordered that way,
/// else the horizontal one), enters the cell beyond it, and stops there if
/// that cell is a wall (off the map, `BOUNDARY_WALL`), with the hit of that
/// crossing and the number of lines crossed; otherwise it walks on.
pub open spec fn ray_walk(map: &TileMap, pos_x: i64, pos_y: i64, dir_x: i64, dir_y: i64, pix_center: u32, kx: int, ky: int) -> (Hit, u32)
    decreases 128 - kx - ky,
{
    if kx < 0 || ky < 0 || kx + ky >= 128 {
        (Hit { tile: BOUNDARY_WALL, horizontal: false, tex_x: 0, height: 1 }, 0)
    } else {
        let adx = abs_dir(dir_x);
        let ady = abs_dir(dir_y);
        let nx = first_line(pos_x, dir_x) + kx * POS_ONE;
        let ny = first_line(pos_y, dir_y) + ky * POS_ONE;
        let x_first = ady == 0 || (adx != 0 && nx * ady < ny * adx);
        let col = pos_x as int / POS_ONE as int + step_sign(dir_x) * (if x_first { kx + 1 } else { kx });
        let row = pos_y as int / POS_ONE as int + step_sign(dir_y) * (if x_first { ky } else { ky + 1 });
        match map.tile_spec(col, row) {
            Tile::Wall(id) => (
                if x_first {
                    hit_spec(id, false, nx, adx, pos_y as int, dir_y as int, pix_center)
                } else {
                    hit_spec(id, true, ny, ady, pos_x as int, dir_x as int, pix_center)
                },
                (kx + ky + 1) as u32,
            ),
            _ => if x_first {
                ray_walk(map, pos_x, pos_y, dir_x, dir_y, pix_center, kx + 1, ky)
            } else {
                ray_walk(map, pos_x, pos_y, dir_x, dir_y, pix_center, kx, ky + 1)
            },
        }
    }
}

/// The first wall a ray from `(pos_x, pos_y)` along `(dir_x, dir_y)` enters,
/// and the number of grid lines it crossed to get there.
pub open spec fn ray_hit_spec(map: &TileMap, pos_x: i64, pos_y: i64, dir_x: i64, dir_y: i64, pix_center: u32) -> (Hit, u32) {
    ray_walk(map, pos_x, pos_y, dir_x, dir_y, pix_center, 0, 0)
}

/// The hit of a ray that crossed its last grid line at distance `num / den`
/// (in direction lengths): its projected half-height `pix_center * den / num`
/// (at least 1), and the texture column of the point struck, from its other
/// coordinate `pos + num * dir / den`.
fn make_hit(tile: u16, horizontal: bool, num: i64, den: i64, pos: i64, dir: i64, pix_center: u32) -> (r: Hit)
    requires
        0 <= num <= 200 * POS_ONE,
        0 < den <= DIR_LIMIT,
        0 <= pos < 64 * POS_ONE,
        -DIR_LIMIT <= dir <= DIR_LIMIT,
        pix_center <= CENTER_LIMIT,
    ensures
        r == hit_spec(tile, horizontal, num as int, den as int, pos as int, dir as int, pix_center),
        r.height >= 1,
        r.tex_x < WALLPIC_WIDTH,
{
    let n: i64 = if num == 0 { 1 } else { num };
    assert(pix_center as i64 * den <= 100_000 * 131072) by (nonlinear_arith)
        requires pix_center <= 100_000, 0 < den <= 131072;
    let h: i64 = (pix_center as i64 * den) / n;
    let height: u32 = if h < 1 { 1 } else if h > 0xffff_ffff { 0xffff_ffff } else { h as u32 };
    assert(pos * den <= 64 * 65536 * 131072) by (nonlinear_arith)
        requires 0 <= pos < 64 * 65536, 0 < den <= 131072;
    assert(-200 * 65536 * 131072 <= num * dir <= 200 * 65536 * 131072) by (nonlinear_arith)
        requires 0 <= num <= 200 * 65536, -131072 <= dir <= 131072;
    let along: i64 = floor_div(pos * den + num * dir, den);
    let cell: i64 = floor_div(along, POS_ONE);
    let frac: i64 = along - cell * POS_ONE;
    assert(0 <= frac < POS_ONE);
    proof {
        lemma_fundamental_div_mod_converse(along as int, POS_ONE as int, cell as int, frac as int);
    }
    assert(frac * 64 / 65536 < 64);
    let tex_x: usize = (frac * (WALLPIC_WIDTH as i64) / POS_ONE) as usize;
    Hit { tile, horizontal, tex_x, height }
}

/// Casts a ray from `(pos_x, pos_y)` along `(dir_x, dir_y)` through the grid,
/// one grid line at a time, and returns the first wall it enters (a cell off
/// the map is a wall, `BOUNDARY_WALL`) with the number of grid lines crossed.
/// The hit is `horizontal` when the last line crossed was horizontal; its
/// height is `pix_center` over the distance in direction lengths, so that a
/// direction of the camera's forward vector plus a camera-plane offset gives
/// the perpendicular projection. A ray from inside the map meets a wall within
/// `MAP_WIDTH + MAP_HEIGHT` crossings.
pub fn cast_ray(map: &TileMap, pos_x: i64, pos_y: i64, dir_x: i64, dir_y: i64, pix_center: u32) -> (r: (Hit, u32))
    requires
        map.wf(),
        in_map(pos_x, pos_y),
        valid_dir(dir_x, dir_y),
        pix_center <= CENTER_LIMIT,
    ensures
        r == ray_hit_spec(map, pos_x, pos_y, dir_x, dir_y, pix_center),
        1 <= r.1 <= MAP_WIDTH + MAP_HEIGHT,
        r.0.height >= 1,
        r.0.tex_x < WALLPIC_WIDTH,
{
    let adx: i64 = if dir_x < 0 { -dir_x } else { dir_x };
    let ady: i64 = if dir_y < 0 { -dir_y } else { dir_y };
    let sx: i64 = if dir_x < 0 { -1 } else { 1 };
    let sy: i64 = if dir_y < 0 { -1 } else { 1 };
    let col0: i64 = pos_x / POS_ONE;
    let row0: i64 = pos_y / POS_ONE;
    let fx: i64 = if dir_x > 0 { (col0 + 1) * POS_ONE - pos_x } else { pos_x - col0 * POS_ONE };
    let fy: i64 = if dir_y > 0 { (row0 + 1) * POS_ONE - pos_y } else { pos_y - row0 * POS_ONE };
    let mut col: i64 = col0;
    let mut row: i64 = row0;
    let mut kx: i64 = 0;
    let mut ky: i64 = 0;
    let mut steps: u32 = 0;
    loop
        invariant
            map.wf(),
            0 <= col0 < 64,
            0 <= row0 < 64,
            0 <= col < 64,
            0 <= row < 64,
            0 <= fx <= POS_ONE,
            0 <= fy <= POS_ONE,
            0 <= adx <= DIR_LIMIT,
            0 <= ady <= DIR_LIMIT,
            adx > 0 || ady > 0,
            sx == 1 || sx == -1,
            sy == 1 || sy == -1,
            0 <= kx,
            0 <= ky,
            adx == 0 ==> kx == 0,
            ady == 0 ==> ky == 0,
            col == col0 + sx * kx,
            row == row0 + sy * ky,
            steps == kx + ky,
            adx == abs_dir(dir_x),
            ady == abs_dir(dir_y),
            sx == step_sign(dir_x),
            sy == step_sign(dir_y),
            col0 == pos_x as int / POS_ONE as int,
            row0 == pos_y as int / POS_ONE as int,
            fx == first_line(pos_x, dir_x),
            fy == first_line(pos_y, dir_y),
            ray_walk(map, pos_x, pos_y, dir_x, dir_y, pix_center, kx as int, ky as int)
                == ray_hit_spec(map, pos_x, pos_y, dir_x, dir_y, pix_center),
            0 <= pos_x < 64 * POS_ONE,
            0 <= pos_y < 64 * POS_ONE,
            -DIR_LIMIT <= dir_x <= DIR_LIMIT,
            -DIR_LIMIT <= dir_y <= DIR_LIMIT,
            pix_center <= CENTER_LIMIT,
        decreases 128 - steps,
    {
        assert(kx <= 63 && ky <= 63) by (nonlinear_arith)
            requires col == col0 + sx * kx, row == row0 + sy * ky, 0 <= col < 64, 0 <= row < 64,
                0 <= col0 < 64, 0 <= row0 < 64, sx == 1 || sx == -1, sy == 1 || sy == -1, kx >= 0, ky >= 0;
        let nx: i64 = fx + kx * POS_ONE;
        let ny: i64 = fy + ky * POS_ONE;
        assert(nx * ady <= 65 * 65536 * 131072 && ny * adx <= 65 * 65536 * 131072) by (nonlinear_arith)
            requires 0 <= nx <= 65 * 65536, 0 <= ny <= 65 * 65536, 0 <= adx <= 131072, 0 <= ady <= 131072;
        let x_first = ady == 0 || (adx != 0 && nx * ady < ny * adx);
        let horizontal = !x_first;
        assert(sx * (kx + 1) == sx * kx + sx && sy * (ky + 1) == sy * ky + sy) by (nonlinear_arith);
        if x_first {
            col = col + sx;
            kx = kx + 1;
        } else {
            row = row + sy;
            ky = ky + 1;
        }
        steps = steps + 1;
        let (num, den, pos, dir) = if x_first { (nx, adx, pos_y, dir_y) } else { (ny, ady, pos_x, dir_x) };
        if col < 0 || col >= 64 || row < 0 || row >= 64 {
            let hit = make_hit(BOUNDARY_WALL, horizontal, num, den, pos, dir, pix_center);
            return (hit, steps);
        }
        match map.tile_at(col as u8, row as u8) {
            Tile::Wall(id) => {
                let hit = make_hit(id, horizontal, num, den, pos, dir, pix_center);
                return (hit, steps);
            },
            _ => {},
        }
    }
}

/// Casts one ray per direction in `dirs`, left to right, from `(pos_x, pos_y)`
/// (see `cast_ray`).
pub fn cast_rays(map: &TileMap, pos_x: i64, pos_y: i64, dirs: &[(i64, i64)], pix_center: u32) -> (r: Vec<Hit>)
    requires
        map.wf(),
        in_map(pos_x, pos_y),
        forall|i: int| 0 <= i < dirs@.len() ==> valid_dir(#[trigger] dirs@[i].0, dirs@[i].1),
        pix_center <= CENTER_LIMIT,
    ensures
        r@.len() == dirs@.len(),
        forall|i: int| 0 <= i < r@.len() ==> #[trigger] r@[i] == ray_hit_spec(map, pos_x, pos_y, dirs@[i].0, dirs@[i].1, pix_center).0,
        forall|i: int| 0 <= i < r@.len() ==> #[trigger] r@[i].height >= 1 && r@[i].tex_x < WALLPIC_WIDTH,
{
    let mut r: Vec<Hit> = Vec::new();
    let mut i: usize = 0;
    while i < dirs.len()
        invariant
            map.wf(),
            in_map(pos_x, pos_y),
            forall|k: int| 0 <= k < dirs@.len() ==> valid_dir(#[trigger] dirs@[k].0, dirs@[k].1),
            pix_center <= CENTER_LIMIT,
            i <= dirs@.len(),
            r@.len() == i,
            forall|k: int| 0 <= k < r@.len() ==> #[trigger] r@[k] == ray_hit_spec(map, pos_x, pos_y, dirs@[k].0, dirs@[k].1, pix_center).0,
            forall|k: int| 0 <= k < r@.len() ==> #[trigger] r@[k].height >= 1 && r@[k].tex_x < WALLPIC_WIDTH,
        decreases dirs@.len() - i,
    {
        let (dx, dy) = dirs[i];
        let (hit, _) = cast_ray(map, pos_x, pos_y, dx, dy, pix_center);
        r.push(hit);
        i = i + 1;
    }
    r
}

} // verus!
