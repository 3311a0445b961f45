use vstd::prelude::*;

use crate::constants::{MAP_HEIGHT, MAP_WIDTH};

verus! {

/// What stands on one cell of the map.
#[derive(Clone, Copy, PartialEq, Eq, Structural, Debug)]
pub enum Tile {
    /// A wall, with the number of its texture pair.
    Wall(u16),
    Floor,
    Door { state: u8 },
}

/// The wall that every cell off the map is taken to be.
pub const BOUNDARY_WALL: u16 = 0;

/// A grid of `MAP_WIDTH` by `MAP_HEIGHT` tiles, row by row.
pub struct TileMap {
    pub tiles: Vec<Tile>,
}

impl TileMap {
    pub open spec fn wf(&self) -> bool {
        self.tiles@.len() == MAP_WIDTH * MAP_HEIGHT
    }

    /// The tile at column `col` and row `row`; off the map, a wall.
    pub open spec fn tile_spec(&self, col: int, row: int) -> Tile {
        if 0 <= col < MAP_WIDTH && 0 <= row < MAP_HEIGHT {
            self.tiles@[row * MAP_WIDTH + col]
        } else {
            Tile::Wall(BOUNDARY_WALL)
        }
    }

    /// Whether the cell at `(col, row)` blocks movement.
    pub open spec fn is_wall_spec(&self, col: int, row: int) -> bool {
        self.tile_spec(col, row) is Wall
    }

    /// A map of the given tiles, row by row; `None` unless there are exactly
    /// `MAP_WIDTH * MAP_HEIGHT` of them.
    pub fn new(tiles: Vec<Tile>) -> (r: Option<TileMap>)
        ensures
            r is Some <==> tiles@.len() == MAP_WIDTH * MAP_HEIGHT,
            r matches Some(m) ==> m.wf() && m.tiles@ == tiles@,
    {
        if tiles.len() == MAP_WIDTH * MAP_HEIGHT {
            Some(TileMap { tiles })
        } else {
            None
        }
    }

    /// The tile at column `col` and row `row`; off the map, a wall.
    pub fn tile_at(&self, col: u8, row: u8) -> (r: Tile)
        requires
            self.wf(),
        ensures
            r == self.tile_spec(col as int, row as int),
    {
        let c = col as usize;
        let w = row as usize;
        if c < MAP_WIDTH && w < MAP_HEIGHT {
            self.tiles[w * MAP_WIDTH + c]
        } else {
            Tile::Wall(BOUNDARY_WALL)
        }
    }

    /// Whether the cell at `(col, row)` blocks movement.
    pub fn is_wall(&self, col: u8, row: u8) -> (r: bool)
        requires
            self.wf(),
        ensures
            r == self.is_wall_spec(col as int, row as int),
    {
        match self.tile_at(col, row) {
            Tile::Wall(_) => true,
            _ => false,
        }
    }
}

/// Highest tile code of a wall.
pub const LAST_WALL_CODE: u8 = 63;

/// First tile code of a door.
pub const FIRST_DOOR_CODE: u8 = 90;

/// Last tile code of a door.
pub const LAST_DOOR_CODE: u8 = 101;

/// Object code of the player's start facing north; east, south and west follow.
pub const FIRST_SPAWN_CODE: u8 = 19;

/// The tile of a map code: walls from 1 to 63 keep their number, codes 90 to
/// 101 are closed doors, and every other code is floor.
pub open spec fn tile_of_code_spec(code: u8) -> Tile {
    if 1 <= code <= LAST_WALL_CODE {
        Tile::Wall(code as u16)
    } else if FIRST_DOOR_CODE <= code <= LAST_DOOR_CODE {
        Tile::Door { state: 0 }
    } else {
        Tile::Floor
    }
}

/// The tile of a map code (see `tile_of_code_spec`).
pub fn tile_of_code(code: u8) -> (r: Tile)
    ensures
        r == tile_of_code_spec(code),
{
    if 1 <= code && code <= LAST_WALL_CODE {
        Tile::Wall(code as u16)
    } else if FIRST_DOOR_CODE <= code && code <= LAST_DOOR_CODE {
        Tile::Door { state: 0 }
    } else {
        Tile::Floor
    }
}

impl TileMap {
    /// The map of a plane of tile codes, row by row; `None` unless there are
    /// exactly `MAP_WIDTH * MAP_HEIGHT` codes.
    pub fn from_codes(codes: &[u8]) -> (r: Option<TileMap>)
        ensures
            r is Some <==> codes@.len() == MAP_WIDTH * MAP_HEIGHT,
            r matches Some(m) ==> m.wf() && forall|i: int|
                0 <= i < codes@.len() ==> m.tiles@[i] == tile_of_code_spec(#[trigger] codes@[i]),
    {
        if codes.len() != MAP_WIDTH * MAP_HEIGHT {
            return None;
        }
        let mut tiles: Vec<Tile> = Vec::new();
        let mut i: usize = 0;
        while i < codes.len()
            invariant
                i <= codes@.len(),
                tiles@.len() == i,
                forall|k: int| 0 <= k < i ==> tiles@[k] == tile_of_code_spec(#[trigger] codes@[k]),
            decreases codes@.len() - i,
        {
            tiles.push(tile_of_code(codes[i]));
            i = i + 1;
        }
        Some(TileMap { tiles })
    }
}

/// Whether an object code marks the player's start.
pub open spec fn is_spawn_code(code: u8) -> bool {
    FIRST_SPAWN_CODE <= code < FIRST_SPAWN_CODE + 4
}

/// The player's start in a plane of object codes, row by row: the first cell
/// whose code marks it, as `(column, row, facing)` with facing 0 to 3 for north,
/// east, south and west; `None` when no cell marks it.
pub fn find_spawn(objects: &[u8]) -> (r: Option<(u8, u8, u8)>)
    requires
        objects@.len() == MAP_WIDTH * MAP_HEIGHT,
    ensures
        r is None <==> forall|i: int| 0 <= i < objects@.len() ==> !is_spawn_code(#[trigger] objects@[i]),
        r matches Some((col, row, facing)) ==> {
            let i = row * MAP_WIDTH + col;
            &&& col < MAP_WIDTH
            &&& row < MAP_HEIGHT
            &&& is_spawn_code(objects@[i])
            &&& facing == objects@[i] - FIRST_SPAWN_CODE
            &&& forall|k: int| 0 <= k < i ==> !is_spawn_code(#[trigger] objects@[k])
        },
{
    let mut i: usize = 0;
    while i < objects.len()
        invariant
            i <= objects@.len(),
            objects@.len() == MAP_WIDTH * MAP_HEIGHT,
            forall|k: int| 0 <= k < i ==> !is_spawn_code(#[trigger] objects@[k]),
        decreases objects@.len() - i,
    {
        let code = objects[i];
        if FIRST_SPAWN_CODE <= code && code < FIRST_SPAWN_CODE + 4 {
            let col = (i % MAP_WIDTH) as u8;
            let row = (i / MAP_WIDTH) as u8;
            assert(i == (i / 64) * 64 + i % 64);
            return Some((col, row, code - FIRST_SPAWN_CODE));
        }
        i = i + 1;
    }
    None
}

} // verus!
