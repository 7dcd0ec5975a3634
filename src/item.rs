use vstd::prelude::*;

use crate::components::{MonsterState, Movement};
use crate::gauges::SpiritGauge;
use crate::monster::{all_wf, boxes_overlap, monster_wf, Monster};
use crate::types::{
    cell_centre, clockwise, grid_to_world, in_field, is_valid_grid_position, GridPosition, FIELD_HEIGHT, FIELD_WIDTH,
    GRID_SIZE,
};

verus! {

/// The kinds of item the player can place.
#[derive(Debug, Clone, Copy, PartialEq, Eq, Structural)]
pub enum ItemKind {
    /// Turns the monsters on it a quarter turn clockwise.
    RotationTile,
}

/// A rotation tile on the field.
#[derive(Debug, Clone, Copy, PartialEq, Eq, Structural)]
pub struct RotationTile {
    pub grid_pos: GridPosition,
}

/// The monster's box overlaps the whole cell of the tile.
pub open spec fn touches(m: Monster, t: RotationTile) -> bool {
    boxes_overlap(
        m.position.x as int,
        m.position.y as int,
        m.collision_box.width as int,
        m.collision_box.height as int,
        cell_centre(t.grid_pos.x as int, GRID_SIZE as int, FIELD_WIDTH as int),
        cell_centre(t.grid_pos.y as int, GRID_SIZE as int, FIELD_HEIGHT as int),
        GRID_SIZE as int,
        GRID_SIZE as int,
    )
}

pub open spec fn on_tile(m: Monster, tiles: Seq<RotationTile>) -> bool {
    exists|k: int| 0 <= k < tiles.len() && touches(m, #[trigger] tiles[k])
}

/// A walking monster heads a quarter turn clockwise of its base direction while it
/// touches a tile, and in its base direction otherwise.
pub open spec fn redirected_after(m: Monster, tiles: Seq<RotationTile>) -> Monster {
    if m.state == MonsterState::Moving {
        let d = if on_tile(m, tiles) {
            clockwise(m.property.base_direction)
        } else {
            m.property.base_direction
        };
        Monster { movement: Movement { direction: d, ..m.movement }, ..m }
    } else {
        m
    }
}

fn touches_any(m: &Monster, tiles: &Vec<RotationTile>) -> (r: bool)
    ensures
        r == on_tile(*m, tiles@),
{
    let mut i: usize = 0;
    while i < tiles.len()
        invariant
            i <= tiles.len(),
            forall|k: int| 0 <= k < i ==> !touches(*m, #[trigger] tiles@[k]),
        decreases tiles.len() - i,
    {
        let c = grid_to_world(tiles[i].grid_pos, GRID_SIZE, FIELD_WIDTH, FIELD_HEIGHT);
        let dx: i128 = m.position.x as i128 - c.x as i128;
        let dy: i128 = m.position.y as i128 - c.y as i128;
        let adx: i128 = if dx < 0 { -dx } else { dx };
        let ady: i128 = if dy < 0 { -dy } else { dy };
        if 2 * adx < m.collision_box.width as i128 + GRID_SIZE as i128 && 2 * ady < m.collision_box.height as i128
            + GRID_SIZE as i128 {
            assert(touches(*m, tiles@[i as int]));
            return true;
        }
        i += 1;
    }
    false
}

/// Points every walking monster in its base direction, turned a quarter turn
/// clockwise while it touches a rotation tile.
pub fn rotation_tile_effect_system(monsters: &mut Vec<Monster>, tiles: &Vec<RotationTile>)
    ensures
        final(monsters)@ == old(monsters)@.map_values(|m: Monster| redirected_after(m, tiles@)),
        all_wf(old(monsters)@) ==> all_wf(final(monsters)@),
{
    let ghost s0 = monsters@;
    let mut i: usize = 0;
    while i < monsters.len()
        invariant
            i <= monsters.len() == s0.len(),
            forall|j: int| 0 <= j < i ==> monsters@[j] == redirected_after(s0[j], tiles@),
            forall|j: int| i <= j < s0.len() ==> monsters@[j] == s0[j],
        decreases monsters.len() - i,
    {
        let mut m = monsters[i];
        if m.state == MonsterState::Moving {
            if touches_any(&m, tiles) {
                m.movement.direction = m.property.base_direction.rotate_clockwise();
            } else {
                m.movement.direction = m.property.base_direction;
            }
        }
        monsters[i] = m;
        i += 1;
    }
    assert(monsters@ =~= s0.map_values(|m: Monster| redirected_after(m, tiles@)));
    assert(all_wf(s0) ==> all_wf(monsters@)) by {
        if all_wf(s0) {
            assert forall|j: int| 0 <= j < monsters@.len() implies monster_wf(#[trigger] monsters@[j]) by {
                assert(monster_wf(s0[j]));
            }
        }
    }
}

/// The tiles of `s` that are not on cell `g`, in order.
pub open spec fn tiles_off(s: Seq<RotationTile>, g: GridPosition) -> Seq<RotationTile>
    decreases s.len(),
{
    if s.len() == 0 {
        Seq::empty()
    } else {
        let r = tiles_off(s.drop_last(), g);
        if s.last().grid_pos == g { r } else { r.push(s.last()) }
    }
}

/// Places a rotation tile on `grid_pos` for `cost` spirit, replacing a tile already
/// there. Nothing happens off the field or when the spirit does not suffice; the
/// result says whether the tile was placed.
pub fn place_item(tiles: &mut Vec<RotationTile>, spirit: &mut SpiritGauge, grid_pos: GridPosition, cost: u32) -> (r:
    bool)
    ensures
        r == (in_field(grid_pos, FIELD_WIDTH as int, FIELD_HEIGHT as int) && old(spirit).current >= cost),
        r ==> final(spirit).current == old(spirit).current - cost,
        !r ==> *final(spirit) == *old(spirit),
        final(spirit).max == old(spirit).max,
        r ==> final(tiles)@ == tiles_off(old(tiles)@, grid_pos).push(RotationTile { grid_pos }),
        !r ==> final(tiles)@ == old(tiles)@,
{
    if !is_valid_grid_position(grid_pos, FIELD_WIDTH, FIELD_HEIGHT) {
        return false;
    }
    if !spirit.consume(cost) {
        return false;
    }
    let ghost s0 = tiles@;
    let mut rest: Vec<RotationTile> = Vec::new();
    let mut i: usize = 0;
    while i < tiles.len()
        invariant
            tiles@ == s0,
            i <= s0.len(),
            rest@ == tiles_off(s0.subrange(0, i as int), grid_pos),
        decreases tiles.len() - i,
    {
        proof {
            assert(s0.subrange(0, i + 1).drop_last() =~= s0.subrange(0, i as int));
        }
        if tiles[i].grid_pos != grid_pos {
            rest.push(tiles[i]);
        }
        i += 1;
    }
    assert(s0.subrange(0, i as int) =~= s0);
    rest.push(RotationTile { grid_pos });
    *tiles = rest;
    true
}

} // verus!
