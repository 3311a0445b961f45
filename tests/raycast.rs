use raycaster::map::{Tile, TileMap};
use raycaster::raycast::{cast_ray, cast_rays, POS_ONE};

fn open_map() -> TileMap {
    let mut tiles = vec![Tile::Floor; 64 * 64];
    for i in 0..64 {
        tiles[i] = Tile::Wall(1);
        tiles[63 * 64 + i] = Tile::Wall(1);
        tiles[i * 64] = Tile::Wall(1);
        tiles[i * 64 + 63] = Tile::Wall(1);
    }
    // a wall five rows below the middle of the map
    tiles[37 * 64 + 32] = Tile::Wall(3);
    TileMap::new(tiles).unwrap()
}

fn half(cells: i64) -> i64 {
    cells * POS_ONE + POS_ONE / 2
}

#[test]
fn ray_straight_at_wall() {
    let m = open_map();
    let (hit, steps) = cast_ray(&m, half(32), half(32), 0, POS_ONE, 80);
    assert_eq!(hit.tile, 3);
    assert!(hit.horizontal);
    assert_eq!(steps, 5);
    // 4.5 tiles away: 80 / 4.5
    assert_eq!(hit.height, 17);
    assert_eq!(hit.tex_x, 32);
}

#[test]
fn wall_grows_as_camera_closes_in() {
    let m = open_map();
    let heights: Vec<u32> = (32..37).map(|row| cast_ray(&m, half(32), half(row), 0, POS_ONE, 80).0.height).collect();
    assert_eq!(heights, vec![17, 22, 32, 53, 160]);
}

#[test]
fn ray_stops_at_boundary_ring() {
    let m = open_map();
    let (hit, steps) = cast_ray(&m, half(10), half(10), -POS_ONE, 0, 80);
    assert_eq!(hit.tile, 1);
    assert!(!hit.horizontal);
    assert_eq!(steps, 10);
}

#[test]
fn ray_leaving_an_open_map_hits_the_edge() {
    let m = TileMap::new(vec![Tile::Floor; 64 * 64]).unwrap();
    let (hit, steps) = cast_ray(&m, half(0), half(0), POS_ONE, POS_ONE / 3, 80);
    assert_eq!(hit.tile, 0);
    assert!(steps <= 128);
    assert!(hit.height >= 1);
}

#[test]
fn diagonal_rays_keep_texture_column_in_range() {
    let m = open_map();
    let dirs: Vec<(i64, i64)> = (-20..=20).map(|k| (k * POS_ONE / 10, POS_ONE)).collect();
    let hits = cast_rays(&m, half(30) + 123, half(31) + 4567, &dirs, 80);
    assert_eq!(hits.len(), dirs.len());
    for h in &hits {
        assert!(h.tex_x < 64 && h.height >= 1);
    }
}

use raycaster::render::{draw_scene, is_drawable, Hit};
use raycaster::video::{darken, pack, Video};

#[test]
fn drawable_hits_need_a_texture() {
    let tex = vec![vec![0u8; 4096], vec![0u8; 4096]];
    assert!(is_drawable(&Hit { tile: 1, horizontal: true, tex_x: 63, height: 1 }, &tex));
    assert!(!is_drawable(&Hit { tile: 0, horizontal: true, tex_x: 0, height: 1 }, &tex));
    assert!(!is_drawable(&Hit { tile: 2, horizontal: true, tex_x: 0, height: 1 }, &tex));
    assert!(!is_drawable(&Hit { tile: 1, horizontal: false, tex_x: 64, height: 1 }, &tex));
    assert!(!is_drawable(&Hit { tile: 1, horizontal: false, tex_x: 0, height: 1 }, &vec![vec![0u8; 4096], vec![0u8; 10]]));
}

#[test]
fn scene_casts_and_draws() {
    let m = open_map();
    // textures for walls 1 to 3, all index 15
    let tex = vec![vec![15u8; 4096]; 6];
    let mut v = Video::new(1);
    let dirs = vec![(0, POS_ONE); 320];
    assert!(draw_scene(&mut v, 0, &m, half(32), half(32), &dirs, &tex));
    // every column looks straight at the wall 4.5 tiles away: height 17
    let (r, g, b) = v.color_map[15];
    let wall = pack((darken(r, 17, 80), darken(g, 17, 80), darken(b, 17, 80)));
    assert_eq!(v.buffer[(80 * 320 + 5) as usize], wall);
    assert_eq!(v.buffer[(63 * 320 + 5) as usize], wall);
    assert!(v.buffer[(62 * 320 + 5) as usize] != wall || wall == 0);
}

#[test]
fn scene_refuses_a_map_without_a_ring() {
    let m = TileMap::new(vec![Tile::Floor; 64 * 64]).unwrap();
    let tex = vec![vec![15u8; 4096]; 2];
    let mut v = Video::new(1);
    let dirs = vec![(POS_ONE, 0); 320];
    assert!(!draw_scene(&mut v, 0, &m, half(3), half(3), &dirs, &tex));
    assert!(v.buffer.iter().all(|&p| p == 0));
}
