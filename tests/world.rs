use raycaster::map::{Tile, TileMap};
use raycaster::player::{
    heading_offset, intents_from_keys, resolve_collision, turn_direction, CollisionCells,
    KeyState, SideMovement, StraightMovement, TurnMovement,
};
use raycaster::render::{draw_weapon, draw_world, wall_texture, Hit, VGA_CEILING_COLORS, VGA_FLOOR_COLOR};
use raycaster::sprite::SpriteShape;
use raycaster::video::{darken, pack, Video};

fn at(v: &Video, x: u32, y: u32) -> u32 {
    v.buffer[(y * v.width + x) as usize]
}

fn darkened(v: &Video, index: usize, light: u32) -> u32 {
    let (r, g, b) = v.color_map[index];
    let h = v.pix_center;
    pack((darken(r, light, h), darken(g, light, h), darken(b, light, h)))
}

fn boxed_map() -> TileMap {
    let mut tiles = vec![Tile::Floor; 64 * 64];
    for i in 0..64 {
        tiles[i] = Tile::Wall(1);
        tiles[63 * 64 + i] = Tile::Wall(1);
        tiles[i * 64] = Tile::Wall(1);
        tiles[i * 64 + 63] = Tile::Wall(1);
    }
    tiles[10 * 64 + 12] = Tile::Wall(2);
    tiles[11 * 64 + 12] = Tile::Door { state: 0 };
    TileMap::new(tiles).unwrap()
}

#[test]
fn map_needs_full_grid() {
    assert!(TileMap::new(vec![Tile::Floor; 10]).is_none());
    assert!(TileMap::new(vec![Tile::Floor; 4096]).is_some());
}

#[test]
fn tiles_and_walls() {
    let m = boxed_map();
    assert_eq!(m.tile_at(12, 10), Tile::Wall(2));
    assert_eq!(m.tile_at(12, 11), Tile::Door { state: 0 });
    assert_eq!(m.tile_at(5, 5), Tile::Floor);
    assert_eq!(m.tile_at(64, 5), Tile::Wall(0));
    assert_eq!(m.tile_at(5, 200), Tile::Wall(0));
    assert!(m.is_wall(0, 5));
    assert!(!m.is_wall(12, 11));
}

#[test]
fn heading_offsets_in_eighths() {
    assert_eq!(heading_offset(Some(StraightMovement::Forward), None), Some(0));
    assert_eq!(heading_offset(Some(StraightMovement::Forward), Some(SideMovement::StrafeLeft)), Some(1));
    assert_eq!(heading_offset(Some(StraightMovement::Forward), Some(SideMovement::StrafeRight)), Some(-1));
    assert_eq!(heading_offset(Some(StraightMovement::Backward), None), Some(-4));
    assert_eq!(heading_offset(Some(StraightMovement::Backward), Some(SideMovement::StrafeLeft)), Some(-5));
    assert_eq!(heading_offset(Some(StraightMovement::Backward), Some(SideMovement::StrafeRight)), Some(-3));
    assert_eq!(heading_offset(None, Some(SideMovement::StrafeLeft)), Some(2));
    assert_eq!(heading_offset(None, Some(SideMovement::StrafeRight)), Some(-2));
    assert_eq!(heading_offset(None, None), None);
}

#[test]
fn turn_directions() {
    assert_eq!(turn_direction(Some(TurnMovement::TurnLeft)), 1);
    assert_eq!(turn_direction(Some(TurnMovement::TurnRight)), -1);
    assert_eq!(turn_direction(None), 0);
}

fn cells(x: (u8, u8), y: (u8, u8), c: (u8, u8)) -> CollisionCells {
    CollisionCells { x_lead: x, y_lead: y, corner: c }
}

#[test]
fn collision_slides_along_walls() {
    let m = boxed_map();
    // nothing in the way
    assert_eq!(resolve_collision(&m, cells((5, 5), (5, 5), (5, 5)), true), (true, true));
    // wall ahead along x only
    assert_eq!(resolve_collision(&m, cells((0, 5), (5, 5), (5, 5)), true), (false, true));
    // wall ahead along y only
    assert_eq!(resolve_collision(&m, cells((5, 5), (5, 0), (5, 5)), false), (true, false));
    // both
    assert_eq!(resolve_collision(&m, cells((0, 5), (5, 0), (0, 0)), true), (false, false));
}

#[test]
fn collision_corner_tie_break() {
    let m = boxed_map();
    assert_eq!(resolve_collision(&m, cells((5, 5), (5, 5), (12, 10)), true), (true, false));
    assert_eq!(resolve_collision(&m, cells((5, 5), (5, 5), (12, 10)), false), (false, true));
}

fn keys() -> KeyState {
    KeyState {
        left: false,
        right: false,
        up: false,
        down: false,
        strafe: false,
        strafe_left: false,
        strafe_right: false,
        run: false,
    }
}

#[test]
fn keys_to_intents() {
    let i = intents_from_keys(keys());
    assert!(i.straight.is_none() && i.side.is_none() && i.turn.is_none() && !i.run);

    let i = intents_from_keys(KeyState { left: true, up: true, run: true, ..keys() });
    assert_eq!(i.turn, Some(TurnMovement::TurnLeft));
    assert_eq!(i.straight, Some(StraightMovement::Forward));
    assert!(i.side.is_none());
    assert!(i.run);

    let i = intents_from_keys(KeyState { left: true, strafe: true, ..keys() });
    assert_eq!(i.side, Some(SideMovement::StrafeLeft));
    assert!(i.turn.is_none());

    let i = intents_from_keys(KeyState { left: true, right: true, up: true, down: true, ..keys() });
    assert_eq!(i.turn, Some(TurnMovement::TurnRight));
    assert_eq!(i.straight, Some(StraightMovement::Backward));

    let i = intents_from_keys(KeyState { strafe_left: true, strafe_right: true, ..keys() });
    assert_eq!(i.side, Some(SideMovement::StrafeRight));
}

#[test]
fn wall_texture_pairs() {
    assert_eq!(wall_texture(1, true), 0);
    assert_eq!(wall_texture(1, false), 1);
    assert_eq!(wall_texture(3, true), 4);
    assert_eq!(wall_texture(3, false), 5);
}

fn textures() -> Vec<Vec<u8>> {
    // texture 0: texel (column c, row r) = r; texture 1: all 15
    let t0: Vec<u8> = (0..4096).map(|i| (i % 64) as u8).collect();
    let t1 = vec![15u8; 4096];
    vec![t0, t1]
}

#[test]
fn world_fills_sky_floor_and_walls() {
    let mut v = Video::new(1);
    let mut hits = vec![Hit { tile: 1, horizontal: false, tex_x: 0, height: 0 }; 320];
    hits[100] = Hit { tile: 1, horizontal: true, tex_x: 3, height: 40 };
    hits[101] = Hit { tile: 1, horizontal: false, tex_x: 0, height: 1000 };
    let tex = textures();
    draw_world(&mut v, 0, &hits, &tex);
    let ceiling = VGA_CEILING_COLORS[0];
    // ceiling and floor of a column without a wall
    assert_eq!(at(&v, 0, 0), darkened(&v, ceiling, 80));
    assert_eq!(at(&v, 0, 70), darkened(&v, ceiling, 10));
    assert_eq!(at(&v, 0, 80), darkened(&v, VGA_FLOOR_COLOR, 0));
    assert_eq!(at(&v, 0, 159), darkened(&v, VGA_FLOOR_COLOR, 79));
    // the status rows stay black
    assert_eq!(at(&v, 0, 170), 0);
    // a wall 80 rows high: rows 40..120, texture row k * 32 / 40
    assert_eq!(at(&v, 100, 39), darkened(&v, ceiling, 41));
    assert_eq!(at(&v, 100, 40), darkened(&v, 0, 40));
    assert_eq!(at(&v, 100, 50), darkened(&v, 8, 40));
    assert_eq!(at(&v, 100, 119), darkened(&v, 63, 40));
    assert_eq!(at(&v, 100, 120), darkened(&v, VGA_FLOOR_COLOR, 40));
    // a wall taller than the view covers it, and stops at the status rows
    assert_eq!(at(&v, 101, 0), darkened(&v, 15, 1000));
    assert_eq!(at(&v, 101, 159), darkened(&v, 15, 1000));
    assert_eq!(at(&v, 101, 160), 0);
}

#[test]
fn closer_walls_are_taller_and_brighter() {
    let tex = textures();
    let mut last_bright = 0u32;
    for h in [10u32, 20, 40, 80] {
        let mut v = Video::new(1);
        let hits = vec![Hit { tile: 1, horizontal: false, tex_x: 0, height: h }; 320];
        draw_world(&mut v, 0, &hits, &tex);
        let wall = darkened(&v, 15, h);
        for y in 80 - h..80 + h {
            assert_eq!(at(&v, 7, y), wall);
        }
        if h < 80 {
            assert_eq!(at(&v, 7, 80 - h - 1), darkened(&v, VGA_CEILING_COLORS[0], h + 1));
            assert_eq!(at(&v, 7, 80 + h), darkened(&v, VGA_FLOOR_COLOR, h));
        }
        assert!(wall & 0xff >= last_bright);
        last_bright = wall & 0xff;
    }
}

#[test]
fn weapon_stays_in_view() {
    let mut v = Video::new(1);
    // one column with one run: rows 0..2 (stored doubled), colors at bytes 20, 21
    let mut bytes = vec![0u8; 32];
    bytes[0] = 4; // end row 2, doubled
    bytes[2] = 20; // color offset
    bytes[4] = 0; // start row 0, doubled
    bytes[20] = 15;
    bytes[21] = 15;
    let shape = SpriteShape { left_pix: 0, right_pix: 0, dataofs: vec![0] };
    draw_weapon(&mut v, &shape, &bytes);
    let white = pack(v.color_map[15]);
    // scale 80, pixheight 160: source column 0 spans columns 80..82, rows 0..5
    assert_eq!(at(&v, 80, 0), white);
    assert_eq!(at(&v, 81, 4), white);
    assert_eq!(at(&v, 82, 0), 0);
    assert_eq!(at(&v, 80, 5), 0);
    assert_eq!(v.buffer.iter().filter(|&&p| p != 0).count(), 10);
}

#[test]
fn sprite_clips_to_view() {
    let mut v = Video::new(1);
    // a run from row 0 to row 200: scaled far below the view
    let mut bytes = vec![0u8; 16];
    bytes[0] = 144; // 400 / 2 = 200 rows, low byte
    bytes[1] = 1;
    bytes[2] = 0;
    bytes[4] = 0;
    let dataofs = vec![0u16; 200];
    v.simple_scale_shape(0, 199, &dataofs, &bytes);
    for y in 160..200u32 {
        for x in 0..320u32 {
            assert_eq!(at(&v, x, y), 0);
        }
    }
    assert!(at(&v, 100, 159) != 0 || at(&v, 100, 100) == pack(v.color_map[0]));
}

#[test]
fn minimap_marks_walls_and_player() {
    let mut v = Video::new(1);
    let m = boxed_map();
    v.draw_minimap(&m, 5 * 64 + 10, 7 * 64, 2);
    let x0 = 320 - 128 - 10;
    let white = pack(v.color_map[255]);
    let mark = pack(v.color_map[10]);
    assert_eq!(at(&v, x0, 10), white);
    assert_eq!(at(&v, x0 + 1, 11), white);
    assert_eq!(at(&v, x0 + 2, 12), pack(v.color_map[0]));
    assert_eq!(at(&v, x0 + 24, 10 + 20), white);
    assert_eq!(at(&v, x0 + 10, 10 + 14), mark);
    assert_eq!(at(&v, x0 - 1, 10), 0);
}

#[test]
fn minimap_scale_zero_draws_nothing() {
    let mut v = Video::new(1);
    let m = boxed_map();
    v.draw_minimap(&m, 100, 100, 0);
    assert!(v.buffer.iter().all(|&p| p == 0));
}

#[test]
fn sprite_rows_and_columns_scale_by_fixed_point() {
    let mut v = Video::new(1);
    // two source columns sharing one run list: rows 3..4, colors at byte 16 + row
    let mut bytes = vec![0u8; 24];
    bytes[0] = 8; // end row 4, doubled
    bytes[2] = 16; // color offset
    bytes[4] = 6; // start row 3, doubled
    bytes[19] = 15;
    let shape = SpriteShape { left_pix: 1, right_pix: 2, dataofs: vec![0, 0] };
    draw_weapon(&mut v, &shape, &bytes);
    let white = pack(v.color_map[15]);
    // pixheight 160: source column 1 spans columns 82..85, column 2 spans 85..87;
    // source row 3 spans rows 7..10
    for x in 82..87u32 {
        for y in 7..10u32 {
            assert_eq!(at(&v, x, y), white);
        }
        assert_eq!(at(&v, x, 6), 0);
        assert_eq!(at(&v, x, 10), 0);
    }
    assert_eq!(at(&v, 81, 8), 0);
    assert_eq!(at(&v, 87, 8), 0);
}
