use vstd::prelude::*;

verus! {

/// Action code: use the selected skill.
pub const ACT_SKILL: u8 = 30;
/// Action code: drop the last inventory item.
pub const ACT_DROP: u8 = 40;
/// Action code: stay in place.
pub const ACT_WAIT: u8 = 8;
/// First of the eight turn-in-place codes (`ACT_TURN_FIRST + d` faces `d`).
pub const ACT_TURN_FIRST: u8 = 16;

pub const ITEM_EXIT: u8 = 8;
pub const ITEM_PORTAL: u8 = 9;
pub const ITEM_KEY: u8 = 11;
pub const ITEM_DOOR: u8 = 18;
pub const ITEM_DOOR_OPEN: u8 = 19;
pub const ITEM_TELEPORT_MARKER: u8 = 50;
pub const ITEM_TREE: u8 = 100;
pub const ITEM_DEBRIS: u8 = 200;

pub const TILE_TREE: u16 = 60;
pub const TILE_BLOOD: u16 = 200;

/// A move code: one of the eight compass directions, or wait.
pub open spec fn spec_is_move(a: u8) -> bool {
    a <= ACT_WAIT
}

/// A turn-in-place code.
pub open spec fn spec_is_turn(a: u8) -> bool {
    ACT_TURN_FIRST <= a < ACT_TURN_FIRST + 8
}

#[verifier::when_used_as_spec(spec_is_move)]
pub fn is_move(a: u8) -> (r: bool)
    ensures
        r == spec_is_move(a),
{
    a <= ACT_WAIT
}

#[verifier::when_used_as_spec(spec_is_turn)]
pub fn is_turn(a: u8) -> (r: bool)
    ensures
        r == spec_is_turn(a),
{
    ACT_TURN_FIRST <= a && a < ACT_TURN_FIRST + 8
}

/// Equality of two grid positions.
pub fn same_pos(a: (u16, u16), b: (u16, u16)) -> (r: bool)
    ensures
        r == (a == b),
{
    a.0 == b.0 && a.1 == b.1
}

} // verus!
