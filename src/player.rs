use vstd::prelude::*;

use crate::map::TileMap;

verus! {

/// Walking ahead or back.
#[derive(Clone, Copy, PartialEq, Eq, Structural, Debug)]
pub enum StraightMovement {
    Forward,
    Backward,
}

/// Stepping sideways.
#[derive(Clone, Copy, PartialEq, Eq, Structural, Debug)]
pub enum SideMovement {
    StrafeRight,
    StrafeLeft,
}

/// Turning on the spot.
#[derive(Clone, Copy, PartialEq, Eq, Structural, Debug)]
pub enum TurnMovement {
    TurnRight,
    TurnLeft,
}

/// The offset of the movement heading from the view angle, in eighths of a
/// turn (a positive offset turns left), or `None` when nothing asks to move.
pub open spec fn heading_offset_spec(straight: Option<StraightMovement>, side: Option<SideMovement>) -> Option<i8> {
    match (straight, side) {
        (Some(StraightMovement::Forward), Some(SideMovement::StrafeLeft)) => Some(1i8),
        (Some(StraightMovement::Forward), Some(SideMovement::StrafeRight)) => Some(-1i8),
        (Some(StraightMovement::Forward), None) => Some(0i8),
        (Some(StraightMovement::Backward), Some(SideMovement::StrafeLeft)) => Some(-5i8),
        (Some(StraightMovement::Backward), Some(SideMovement::StrafeRight)) => Some(-3i8),
        (Some(StraightMovement::Backward), None) => Some(-4i8),
        (None, Some(SideMovement::StrafeLeft)) => Some(2i8),
        (None, Some(SideMovement::StrafeRight)) => Some(-2i8),
        (None, None) => None,
    }
}

/// The offset of the movement heading from the view angle, in eighths of a turn
/// (a positive offset turns left): ahead is 0, back is -4, a side step is 2 to
/// the left and -2 to the right, and a diagonal lies halfway between its two
/// parts. `None` when neither a straight nor a side movement is asked for: the
/// position then stays, and the previous heading is kept.
pub fn heading_offset(straight: Option<StraightMovement>, side: Option<SideMovement>) -> (r: Option<i8>)
    ensures
        r == heading_offset_spec(straight, side),
{
    match straight {
        Some(StraightMovement::Forward) => match side {
            Some(SideMovement::StrafeLeft) => Some(1),
            Some(SideMovement::StrafeRight) => Some(-1),
            None => Some(0),
        },
        Some(StraightMovement::Backward) => match side {
            Some(SideMovement::StrafeLeft) => Some(-5),
            Some(SideMovement::StrafeRight) => Some(-3),
            None => Some(-4),
        },
        None => match side {
            Some(SideMovement::StrafeLeft) => Some(2),
            Some(SideMovement::StrafeRight) => Some(-2),
            None => None,
        },
    }
}

/// The direction of a turn: 1 to the left (the view angle grows), -1 to the
/// right, 0 for none.
pub fn turn_direction(turn: Option<TurnMovement>) -> (r: i8)
    ensures
        turn == Some(TurnMovement::TurnLeft) ==> r == 1,
        turn == Some(TurnMovement::TurnRight) ==> r == -1,
        turn is None ==> r == 0,
{
    match turn {
        Some(TurnMovement::TurnLeft) => 1,
        Some(TurnMovement::TurnRight) => -1,
        None => 0,
    }
}

/// The three map cells tested against a tentative position: pushed out by the
/// player's margin along x only (and back along y), along y only (and back along
/// x), and along both, to the corner.
#[derive(Clone, Copy, Debug)]
pub struct CollisionCells {
    pub x_lead: (u8, u8),
    pub y_lead: (u8, u8),
    pub corner: (u8, u8),
}

/// Which axes a move commits, `(x, y)`, given whether the x-leading, the
/// y-leading and the corner cell are walls, and whether the tentative position
/// lies farther from the corner's grid line along x than along y.
pub open spec fn resolve_spec(slide_x: bool, slide_y: bool, corner: bool, x_farther: bool) -> (bool, bool) {
    if corner && !slide_x && !slide_y {
        if x_farther { (true, false) } else { (false, true) }
    } else {
        (!slide_x, !slide_y)
    }
}

/// Which axes a move to a tentative position commits, `(x, y)`. An axis whose
/// leading cell is a wall is refused, so the player slides along the wall. When
/// only the corner cell is a wall, the axis along which the position is farther
/// from the grid line (`x_farther`) moves alone. Otherwise both move.
pub fn resolve_collision(map: &TileMap, cells: CollisionCells, x_farther: bool) -> (r: (bool, bool))
    requires
        map.wf(),
    ensures
        r == resolve_spec(
            map.is_wall_spec(cells.x_lead.0 as int, cells.x_lead.1 as int),
            map.is_wall_spec(cells.y_lead.0 as int, cells.y_lead.1 as int),
            map.is_wall_spec(cells.corner.0 as int, cells.corner.1 as int),
            x_farther,
        ),
{
    let slide_x = map.is_wall(cells.x_lead.0, cells.x_lead.1);
    let slide_y = map.is_wall(cells.y_lead.0, cells.y_lead.1);
    let corner = map.is_wall(cells.corner.0, cells.corner.1);
    if corner && !slide_x && !slide_y {
        if x_farther {
            (true, false)
        } else {
            (false, true)
        }
    } else {
        (!slide_x, !slide_y)
    }
}

/// A move never commits an axis whose leading cell is a wall, and never
/// commits both axes into a corner that is a wall.
pub proof fn lemma_collision_containment(map: &TileMap, cells: CollisionCells, x_farther: bool)
    requires
        map.wf(),
    ensures
        ({
            let r = resolve_spec(
                map.is_wall_spec(cells.x_lead.0 as int, cells.x_lead.1 as int),
                map.is_wall_spec(cells.y_lead.0 as int, cells.y_lead.1 as int),
                map.is_wall_spec(cells.corner.0 as int, cells.corner.1 as int),
                x_farther,
            );
            &&& r.0 ==> !map.is_wall_spec(cells.x_lead.0 as int, cells.x_lead.1 as int)
            &&& r.1 ==> !map.is_wall_spec(cells.y_lead.0 as int, cells.y_lead.1 as int)
            &&& (r.0 && r.1) ==> !map.is_wall_spec(cells.corner.0 as int, cells.corner.1 as int)
        }),
{
}

/// The keys held down in one frame: turn (or, with `strafe`, step) left and
/// right, walk ahead and back, the strafe modifier, step left and right, and run.
#[derive(Clone, Copy, PartialEq, Eq, Structural, Debug)]
pub struct KeyState {
    pub left: bool,
    pub right: bool,
    pub up: bool,
    pub down: bool,
    pub strafe: bool,
    pub strafe_left: bool,
    pub strafe_right: bool,
    pub run: bool,
}

/// What one frame of input asks of the player.
#[derive(Clone, Copy, Debug)]
pub struct Intents {
    pub straight: Option<StraightMovement>,
    pub side: Option<SideMovement>,
    pub turn: Option<TurnMovement>,
    pub run: bool,
}

/// The straight movement that keys ask for: back wins over ahead.
pub open spec fn straight_of(k: KeyState) -> Option<StraightMovement> {
    if k.down {
        Some(StraightMovement::Backward)
    } else if k.up {
        Some(StraightMovement::Forward)
    } else {
        None
    }
}

/// The side movement that keys ask for: the step keys win over the turn keys
/// held with the strafe modifier, and right wins over left.
pub open spec fn side_of(k: KeyState) -> Option<SideMovement> {
    if k.strafe_right {
        Some(SideMovement::StrafeRight)
    } else if k.strafe_left {
        Some(SideMovement::StrafeLeft)
    } else if k.right && k.strafe {
        Some(SideMovement::StrafeRight)
    } else if k.left && k.strafe {
        Some(SideMovement::StrafeLeft)
    } else {
        None
    }
}

/// The turn that keys ask for: none under the strafe modifier, and right wins
/// over left.
pub open spec fn turn_of(k: KeyState) -> Option<TurnMovement> {
    if k.right && !k.strafe {
        Some(TurnMovement::TurnRight)
    } else if k.left && !k.strafe {
        Some(TurnMovement::TurnLeft)
    } else {
        None
    }
}

/// Maps the keys held in one frame to the movements they ask for (see
/// `straight_of`, `side_of` and `turn_of`); the run key doubles the speed.
pub fn intents_from_keys(keys: KeyState) -> (r: Intents)
    ensures
        r.straight == straight_of(keys),
        r.side == side_of(keys),
        r.turn == turn_of(keys),
        r.run == keys.run,
{
    let mut straight: Option<StraightMovement> = None;
    let mut side: Option<SideMovement> = None;
    let mut turn: Option<TurnMovement> = None;
    if keys.left {
        if keys.strafe {
            side = Some(SideMovement::StrafeLeft);
        } else {
            turn = Some(TurnMovement::TurnLeft);
        }
    }
    if keys.right {
        if keys.strafe {
            side = Some(SideMovement::StrafeRight);
        } else {
            turn = Some(TurnMovement::TurnRight);
        }
    }
    if keys.up {
        straight = Some(StraightMovement::Forward);
    }
    if keys.down {
        straight = Some(StraightMovement::Backward);
    }
    if keys.strafe_left {
        side = Some(SideMovement::StrafeLeft);
    }
    if keys.strafe_right {
        side = Some(SideMovement::StrafeRight);
    }
    Intents { straight, side, turn, run: keys.run }
}

} // verus!
