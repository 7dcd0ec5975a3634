use vstd::arithmetic::div_mod::{lemma_fundamental_div_mod, lemma_mod_bound};
use vstd::prelude::*;

use rand::seq::SliceRandom;

use crate::components::{MonsterState, Movement};
use crate::monster::{all_wf, monster_wf, within, Monster, NEAR_LIMIT};
use crate::types::{
    cell_centre, cell_of, floor_div, grid_to_world, in_field, is_valid_grid_position, world_to_grid, Color,
    GridPosition, WorldPosition, FIELD_HEIGHT, FIELD_WIDTH, GRID_SIZE,
};

verus! {

/// Speed factor of a slow zone, in percent.
pub const SWAMP_SPEED_MULTIPLIER: u32 = 50;

/// How long a wind push takes, in ms.
pub const WIND_PUSH_DURATION: u32 = 200;

/// The kinds of terrain.
#[derive(Debug, Clone, Copy, PartialEq, Eq, Hash, Structural)]
pub enum ObstacleKind {
    /// Slows the monsters on it.
    Swamp,
    /// Throws the monsters on it one cell in a random direction.
    Wind,
}

/// A terrain cell as a stage file places it.
#[derive(Debug, Clone, Copy, PartialEq, Eq, Structural)]
pub struct ObstacleDefinition {
    pub kind: ObstacleKind,
    pub grid_pos: GridPosition,
}

/// Where a terrain cell lies.
#[derive(Debug, Clone, Copy, PartialEq, Eq, Structural)]
pub struct ObstaclePosition {
    pub grid_pos: GridPosition,
}

/// Effect of a slow zone.
#[derive(Debug, Clone, Copy, PartialEq, Eq, Structural)]
pub struct SwampEffect {
    /// Speed factor, in percent.
    pub speed_multiplier: u32,
}

impl Default for SwampEffect {
    fn default() -> (r: Self)
        ensures
            r.speed_multiplier == SWAMP_SPEED_MULTIPLIER,
    {
        SwampEffect { speed_multiplier: SWAMP_SPEED_MULTIPLIER }
    }
}

/// Marks a monster standing on a slow zone.
#[derive(Debug, Clone, Copy, PartialEq, Eq, Structural)]
pub struct OnSwamp {
    /// Speed factor, in percent.
    pub speed_multiplier: u32,
}

/// The wind cell that pushed a monster last.
#[derive(Debug, Clone, Copy, PartialEq, Eq, Structural)]
pub struct WindAffected {
    pub last_affected_pos: GridPosition,
}

/// A push in progress: the monster slides from `start_pos` to `target_pos`.
#[derive(Debug, Clone, Copy, PartialEq, Eq, Structural)]
pub struct WindPush {
    pub start_pos: WorldPosition,
    pub target_pos: WorldPosition,
    /// In ms.
    pub elapsed: u64,
    /// In ms.
    pub duration: u32,
}

/// How a kind of terrain is drawn.
#[derive(Debug, Clone, Copy, PartialEq, Eq, Structural)]
pub struct ObstacleVisualConfig {
    pub kind: ObstacleKind,
    pub color: Color,
    /// Side of the sprite, in thousandths of a cell.
    pub size: u32,
}

impl ObstacleVisualConfig {
    pub fn get_config(kind: ObstacleKind) -> (r: Self)
        ensures
            r.kind == kind,
            kind == ObstacleKind::Swamp ==> r.color == (Color { r: 400, g: 300, b: 200 }) && r.size == 900,
            kind == ObstacleKind::Wind ==> r.color == (Color { r: 600, g: 900, b: 1000 }) && r.size == 800,
    {
        match kind {
            ObstacleKind::Swamp => ObstacleVisualConfig { kind, color: Color { r: 400, g: 300, b: 200 }, size: 900 },
            ObstacleKind::Wind => ObstacleVisualConfig { kind, color: Color { r: 600, g: 900, b: 1000 }, size: 800 },
        }
    }
}

/// A slow zone of the field.
#[derive(Debug, Clone, Copy, PartialEq, Eq, Structural)]
pub struct Swamp {
    pub position: ObstaclePosition,
    pub effect: SwampEffect,
}

/// The terrain of a stage.
pub struct Terrain {
    pub swamps: Vec<Swamp>,
    pub winds: Vec<ObstaclePosition>,
}

/// Slow zones slow down and never speed up.
pub open spec fn terrain_wf(t: Terrain) -> bool {
    forall|i: int| 0 <= i < t.swamps@.len() ==> #[trigger] t.swamps@[i].effect.speed_multiplier <= 100
}

/// The slow zones that `defs` place, in order, each with the default factor.
pub open spec fn swamps_of(defs: Seq<ObstacleDefinition>) -> Seq<Swamp>
    decreases defs.len(),
{
    if defs.len() == 0 {
        Seq::empty()
    } else {
        let r = swamps_of(defs.drop_last());
        if defs.last().kind == ObstacleKind::Swamp {
            r.push(
                Swamp {
                    position: ObstaclePosition { grid_pos: defs.last().grid_pos },
                    effect: SwampEffect { speed_multiplier: SWAMP_SPEED_MULTIPLIER },
                },
            )
        } else {
            r
        }
    }
}

/// The wind cells that `defs` place, in order.
pub open spec fn winds_of(defs: Seq<ObstacleDefinition>) -> Seq<ObstaclePosition>
    decreases defs.len(),
{
    if defs.len() == 0 {
        Seq::empty()
    } else {
        let r = winds_of(defs.drop_last());
        if defs.last().kind == ObstacleKind::Wind {
            r.push(ObstaclePosition { grid_pos: defs.last().grid_pos })
        } else {
            r
        }
    }
}

proof fn lemma_swamps_default(defs: Seq<ObstacleDefinition>)
    ensures
        forall|i: int|
            0 <= i < swamps_of(defs).len() ==> #[trigger] swamps_of(defs)[i].effect.speed_multiplier
                == SWAMP_SPEED_MULTIPLIER,
    decreases defs.len(),
{
    if defs.len() > 0 {
        lemma_swamps_default(defs.drop_last());
        let r = swamps_of(defs.drop_last());
        assert forall|i: int| 0 <= i < swamps_of(defs).len() implies #[trigger] swamps_of(
            defs,
        )[i].effect.speed_multiplier == SWAMP_SPEED_MULTIPLIER by {
            if i < r.len() {
                assert(swamps_of(defs)[i] == r[i]);
            }
        }
    }
}

/// The terrain that `obstacles` place: each slow zone with the default factor.
pub fn spawn_obstacles_from_stage(obstacles: &Vec<ObstacleDefinition>) -> (r: Terrain)
    ensures
        r.swamps@ == swamps_of(obstacles@),
        r.winds@ == winds_of(obstacles@),
        terrain_wf(r),
{
    let mut swamps: Vec<Swamp> = Vec::new();
    let mut winds: Vec<ObstaclePosition> = Vec::new();
    let mut i: usize = 0;
    while i < obstacles.len()
        invariant
            i <= obstacles.len(),
            swamps@ == swamps_of(obstacles@.subrange(0, i as int)),
            winds@ == winds_of(obstacles@.subrange(0, i as int)),
        decreases obstacles.len() - i,
    {
        let d = obstacles[i];
        proof {
            assert(obstacles@.subrange(0, i + 1).drop_last() =~= obstacles@.subrange(0, i as int));
        }
        match d.kind {
            ObstacleKind::Swamp => {
                swamps.push(
                    Swamp { position: ObstaclePosition { grid_pos: d.grid_pos }, effect: SwampEffect::default() },
                );
            },
            ObstacleKind::Wind => {
                winds.push(ObstaclePosition { grid_pos: d.grid_pos });
            },
        }
        i += 1;
    }
    assert(obstacles@.subrange(0, i as int) =~= obstacles@);
    proof {
        lemma_swamps_default(obstacles@);
    }
    Terrain { swamps, winds }
}

/// The cell of the standard field that holds `p`.
pub open spec fn cell_at(p: WorldPosition) -> GridPosition {
    GridPosition {
        x: cell_of(p.x as int, GRID_SIZE as int, FIELD_WIDTH as int) as i32,
        y: cell_of(p.y as int, GRID_SIZE as int, FIELD_HEIGHT as int) as i32,
    }
}

/// Centre of cell `g` of the standard field.
pub open spec fn centre_of(g: GridPosition) -> WorldPosition {
    WorldPosition {
        x: cell_centre(g.x as int, GRID_SIZE as int, FIELD_WIDTH as int) as i64,
        y: cell_centre(g.y as int, GRID_SIZE as int, FIELD_HEIGHT as int) as i64,
    }
}

fn cell_of_position(p: WorldPosition) -> (r: GridPosition)
    ensures
        r == cell_at(p),
{
    world_to_grid(p, GRID_SIZE, FIELD_WIDTH, FIELD_HEIGHT)
}

// ---------------------------------------------------------------- slow zones

/// Speed factor of the first slow zone of `s` on cell `g`.
pub open spec fn first_swamp(s: Seq<Swamp>, g: GridPosition) -> Option<u32>
    decreases s.len(),
{
    if s.len() == 0 {
        None
    } else if s[0].position.grid_pos == g {
        Some(s[0].effect.speed_multiplier)
    } else {
        first_swamp(s.subrange(1, s.len() as int), g)
    }
}

/// A walking monster on a slow zone is marked with the zone's factor; a walking monster
/// elsewhere is unmarked.
pub open spec fn detected_after(m: Monster, swamps: Seq<Swamp>) -> Monster {
    if m.state == MonsterState::Moving {
        Monster {
            on_swamp: match first_swamp(swamps, cell_at(m.position)) {
                Some(k) => Some(OnSwamp { speed_multiplier: k }),
                None => None,
            },
            ..m
        }
    } else {
        m
    }
}

/// A walking monster that is not held walks at its base speed, scaled by the factor
/// of the slow zone it is marked with.
pub open spec fn slowed_after(m: Monster) -> Monster {
    if m.state == MonsterState::Moving && m.movement.enabled {
        let speed = match m.on_swamp {
            Some(o) => m.property.base_speed * o.speed_multiplier / 100,
            None => m.property.base_speed as int,
        };
        Monster { movement: Movement { speed: speed as u32, ..m.movement }, ..m }
    } else {
        m
    }
}

fn find_swamp(swamps: &Vec<Swamp>, g: GridPosition) -> (r: Option<u32>)
    ensures
        r == first_swamp(swamps@, g),
{
    let mut i: usize = 0;
    assert(swamps@.subrange(0, swamps@.len() as int) =~= swamps@);
    while i < swamps.len()
        invariant
            i <= swamps.len(),
            first_swamp(swamps@, g) == first_swamp(swamps@.subrange(i as int, swamps@.len() as int), g),
        decreases swamps.len() - i,
    {
        let ghost rest = swamps@.subrange(i as int, swamps@.len() as int);
        assert(rest.subrange(1, rest.len() as int) =~= swamps@.subrange(i + 1, swamps@.len() as int));
        if swamps[i].position.grid_pos == g {
            return Some(swamps[i].effect.speed_multiplier);
        }
        i += 1;
    }
    None
}

proof fn lemma_first_swamp_bounded(s: Seq<Swamp>, g: GridPosition)
    requires
        forall|i: int| 0 <= i < s.len() ==> #[trigger] s[i].effect.speed_multiplier <= 100,
    ensures
        first_swamp(s, g) matches Some(k) ==> k <= 100,
    decreases s.len(),
{
    if s.len() > 0 && s[0].position.grid_pos != g {
        let t = s.subrange(1, s.len() as int);
        assert forall|i: int| 0 <= i < t.len() implies #[trigger] t[i].effect.speed_multiplier <= 100 by {
            assert(t[i] == s[i + 1]);
        }
        lemma_first_swamp_bounded(t, g);
    }
}

/// Marks each walking monster that stands on a slow zone with the factor of the first
/// such zone, and unmarks the other walking monsters.
pub fn detect_swamp_system(monsters: &mut Vec<Monster>, terrain: &Terrain)
    requires
        terrain_wf(*terrain),
        all_wf(old(monsters)@),
    ensures
        final(monsters)@ == old(monsters)@.map_values(|m: Monster| detected_after(m, terrain.swamps@)),
        all_wf(final(monsters)@),
{
    let ghost s0 = monsters@;
    let mut i: usize = 0;
    while i < monsters.len()
        invariant
            terrain_wf(*terrain),
            all_wf(s0),
            i <= monsters.len() == s0.len(),
            forall|j: int| 0 <= j < i ==> monsters@[j] == detected_after(s0[j], terrain.swamps@),
            forall|j: int| 0 <= j < i ==> monster_wf(#[trigger] monsters@[j]),
            forall|j: int| i <= j < s0.len() ==> monsters@[j] == s0[j],
        decreases monsters.len() - i,
    {
        let mut m = monsters[i];
        if m.state == MonsterState::Moving {
            let g = cell_of_position(m.position);
            proof {
                lemma_first_swamp_bounded(terrain.swamps@, g);
            }
            m.on_swamp = match find_swamp(&terrain.swamps, g) {
                Some(k) => Some(OnSwamp { speed_multiplier: k }),
                None => None,
            };
        }
        monsters[i] = m;
        i += 1;
    }
    assert(monsters@ =~= s0.map_values(|m: Monster| detected_after(m, terrain.swamps@)));
}

/// Sets the speed of every walking monster that is not held from its base speed and
/// the slow zone it is marked with.
pub fn apply_swamp_effect_system(monsters: &mut Vec<Monster>)
    requires
        all_wf(old(monsters)@),
    ensures
        final(monsters)@ == old(monsters)@.map_values(|m: Monster| slowed_after(m)),
        all_wf(final(monsters)@),
{
    let ghost s0 = monsters@;
    let mut i: usize = 0;
    while i < monsters.len()
        invariant
            all_wf(s0),
            i <= monsters.len() == s0.len(),
            forall|j: int| 0 <= j < i ==> monsters@[j] == slowed_after(s0[j]),
            forall|j: int| 0 <= j < i ==> monster_wf(#[trigger] monsters@[j]),
            forall|j: int| i <= j < s0.len() ==> monsters@[j] == s0[j],
        decreases monsters.len() - i,
    {
        let mut m = monsters[i];
        proof {
            assert(monster_wf(s0[i as int]));
        }
        if m.state == MonsterState::Moving && m.movement.enabled {
            match m.on_swamp {
                Some(o) => {
                    let k = o.speed_multiplier;
                    assert(m.property.base_speed as u64 * k as u64 <= 0xFFFF_FFFF * 100) by (nonlinear_arith)
                        requires
                            m.property.base_speed <= 0xFFFF_FFFFu32,
                            k <= 100,
                    {
                    }
                    m.movement.speed = (m.property.base_speed as u64 * k as u64 / 100) as u32;
                },
                None => {
                    m.movement.speed = m.property.base_speed;
                },
            }
        }
        monsters[i] = m;
        i += 1;
    }
    assert(monsters@ =~= s0.map_values(|m: Monster| slowed_after(m)));
}

// ---------------------------------------------------------------- wind

/// One cell to the right, left, up or down.
pub open spec fn is_cardinal(o: GridPosition) -> bool {
    (o.x == 1 && o.y == 0) || (o.x == -1 && o.y == 0) || (o.x == 0 && o.y == 1) || (o.x == 0 && o.y == -1)
}

pub open spec fn wind_cell(winds: Seq<ObstaclePosition>, g: GridPosition) -> bool {
    exists|k: int| 0 <= k < winds.len() && (#[trigger] winds[k]).grid_pos == g
}

/// A walking monster that no push carries, on a wind cell that has not pushed it yet,
/// is pushed towards the neighbour cell at `o` when that cell is on the field: it stops
/// walking and slides there. The marker of the last pushing cell is dropped once the
/// monster stands on another cell.
pub open spec fn wind_after(m: Monster, winds: Seq<ObstaclePosition>, o: GridPosition) -> Monster {
    if m.state != MonsterState::Moving || m.wind_push is Some {
        m
    } else {
        let g = cell_at(m.position);
        if m.wind_affected == Some(WindAffected { last_affected_pos: g }) {
            m
        } else {
            let nx = g.x + o.x;
            let ny = g.y + o.y;
            if wind_cell(winds, g) && 0 <= nx < FIELD_WIDTH && 0 <= ny < FIELD_HEIGHT {
                let n = GridPosition { x: nx as i32, y: ny as i32 };
                Monster {
                    wind_push: Some(
                        WindPush {
                            start_pos: m.position,
                            target_pos: centre_of(n),
                            elapsed: 0,
                            duration: WIND_PUSH_DURATION,
                        },
                    ),
                    movement: Movement { enabled: false, ..m.movement },
                    wind_affected: Some(WindAffected { last_affected_pos: g }),
                    ..m
                }
            } else {
                Monster { wind_affected: None, ..m }
            }
        }
    }
}

pub open spec fn winded(s: Seq<Monster>, winds: Seq<ObstaclePosition>, offsets: Seq<GridPosition>) -> Seq<Monster> {
    Seq::new(s.len(), |i: int| wind_after(s[i], winds, offsets[i]))
}

proof fn lemma_centre_in_field(g: GridPosition)
    requires
        in_field(g, FIELD_WIDTH as int, FIELD_HEIGHT as int),
    ensures
        within(centre_of(g), 320_000),
{
    let cx = (2 * g.x - 10 + 1) * 64_000int;
    let cy = (2 * g.y - 10 + 1) * 64_000int;
    assert(-576_000 <= cx <= 576_000) by (nonlinear_arith)
        requires
            0 <= g.x < 10,
            cx == (2 * g.x - 10 + 1) * 64_000int,
    {
    }
    assert(-576_000 <= cy <= 576_000) by (nonlinear_arith)
        requires
            0 <= g.y < 10,
            cy == (2 * g.y - 10 + 1) * 64_000int,
    {
    }
}

fn is_wind_cell(winds: &Vec<ObstaclePosition>, g: GridPosition) -> (r: bool)
    ensures
        r == wind_cell(winds@, g),
{
    let mut i: usize = 0;
    while i < winds.len()
        invariant
            i <= winds.len(),
            forall|k: int| 0 <= k < i ==> (#[trigger] winds@[k]).grid_pos != g,
        decreases winds.len() - i,
    {
        if winds[i].grid_pos == g {
            assert(winds@[i as int].grid_pos == g);
            return true;
        }
        i += 1;
    }
    false
}

pub fn wind_step(m: &mut Monster, winds: &Vec<ObstaclePosition>, o: GridPosition)
    requires
        monster_wf(*old(m)),
        is_cardinal(o),
    ensures
        *final(m) == wind_after(*old(m), winds@, o),
        monster_wf(*final(m)),
{
    if m.state != MonsterState::Moving || m.wind_push.is_some() {
        return;
    }
    let g = cell_of_position(m.position);
    if m.wind_affected == Some(WindAffected { last_affected_pos: g }) {
        return;
    }
    let nx: i64 = g.x as i64 + o.x as i64;
    let ny: i64 = g.y as i64 + o.y as i64;
    if is_wind_cell(winds, g) && 0 <= nx && nx < FIELD_WIDTH as i64 && 0 <= ny && ny < FIELD_HEIGHT as i64 {
        let n = GridPosition { x: nx as i32, y: ny as i32 };
        if is_valid_grid_position(n, FIELD_WIDTH, FIELD_HEIGHT) {
            let target = grid_to_world(n, GRID_SIZE, FIELD_WIDTH, FIELD_HEIGHT);
            proof {
                lemma_centre_in_field(n);
            }
            m.wind_push = Some(
                WindPush { start_pos: m.position, target_pos: target, elapsed: 0, duration: WIND_PUSH_DURATION },
            );
            m.movement.enabled = false;
            m.wind_affected = Some(WindAffected { last_affected_pos: g });
        }
    } else {
        m.wind_affected = None;
    }
}

/// The four neighbour offsets a wind cell may throw a monster by.
fn push_offsets() -> (r: Vec<GridPosition>)
    ensures
        r@.len() == 4,
        forall|k: int| 0 <= k < 4 ==> is_cardinal(#[trigger] r@[k]),
{
    let mut r: Vec<GridPosition> = Vec::new();
    r.push(GridPosition { x: 1, y: 0 });
    r.push(GridPosition { x: -1, y: 0 });
    r.push(GridPosition { x: 0, y: 1 });
    r.push(GridPosition { x: 0, y: -1 });
    r
}

/// Relies on `rand::seq::SliceRandom::choose` over `rand::thread_rng()`: it returns
/// `None` for an empty slice and otherwise one of the slice's elements.
#[verifier::external_body]
fn choose_offset(offsets: &Vec<GridPosition>) -> (r: Option<GridPosition>)
    ensures
        offsets@.len() == 0 <==> r is None,
        r matches Some(o) ==> offsets@.contains(o),
{
    offsets.as_slice().choose(&mut rand::thread_rng()).copied()
}

/// A neighbour offset drawn at random.
fn random_offset() -> (r: GridPosition)
    ensures
        is_cardinal(r),
{
    let offsets = push_offsets();
    let o = choose_offset(&offsets).unwrap();
    proof {
        let k = choose|k: int| 0 <= k < offsets@.len() && offsets@[k] == o;
        assert(is_cardinal(offsets@[k]));
    }
    o
}

/// Starts a wind push for every walking monster that has just stepped onto a wind
/// cell, each towards a neighbour cell drawn at random; what happens for each monster
/// is `wind_after` for the offset drawn for it.
pub fn wind_effect_system(monsters: &mut Vec<Monster>, terrain: &Terrain)
    requires
        all_wf(old(monsters)@),
    ensures
        exists|offsets: Seq<GridPosition>|
            offsets.len() == old(monsters)@.len() && (forall|k: int|
                0 <= k < offsets.len() ==> is_cardinal(#[trigger] offsets[k])) && final(monsters)@ == winded(
                old(monsters)@,
                terrain.winds@,
                offsets,
            ),
        all_wf(final(monsters)@),
{
    let ghost s0 = monsters@;
    let ghost mut offsets: Seq<GridPosition> = Seq::empty();
    let mut i: usize = 0;
    while i < monsters.len()
        invariant
            i <= monsters.len() == s0.len(),
            all_wf(s0),
            offsets.len() == i,
            forall|k: int| 0 <= k < i ==> is_cardinal(#[trigger] offsets[k]),
            forall|j: int| 0 <= j < i ==> monsters@[j] == wind_after(s0[j], terrain.winds@, offsets[j]),
            forall|j: int| 0 <= j < i ==> monster_wf(#[trigger] monsters@[j]),
            forall|j: int| i <= j < s0.len() ==> monsters@[j] == s0[j],
        decreases monsters.len() - i,
    {
        let o = random_offset();
        let mut m = monsters[i];
        wind_step(&mut m, &terrain.winds, o);
        monsters[i] = m;
        proof {
            offsets = offsets.push(o);
        }
        i += 1;
    }
    assert(monsters@ =~= winded(s0, terrain.winds@, offsets));
}

// ---------------------------------------------------------------- push

/// The point a fraction `e / d` of the way from `a` to `b`, rounded down.
pub open spec fn lerp(a: int, b: int, e: int, d: int) -> int {
    a + ((b - a) * e) / d
}

/// A push in progress advances by `dt`; once its time is up the monster stands on the
/// target and walks again.
pub open spec fn pushed_after(m: Monster, dt: int) -> Monster {
    match m.wind_push {
        None => m,
        Some(p) => {
            let e = p.elapsed + dt;
            if e >= p.duration {
                Monster {
                    position: p.target_pos,
                    wind_push: None,
                    movement: Movement { enabled: true, ..m.movement },
                    ..m
                }
            } else {
                Monster {
                    position: WorldPosition {
                        x: lerp(p.start_pos.x as int, p.target_pos.x as int, e, p.duration as int) as i64,
                        y: lerp(p.start_pos.y as int, p.target_pos.y as int, e, p.duration as int) as i64,
                    },
                    wind_push: Some(WindPush { elapsed: e as u64, ..p }),
                    ..m
                }
            }
        },
    }
}

proof fn lemma_lerp_between(a: int, b: int, e: int, d: int)
    requires
        0 <= e < d,
    ensures
        a <= b ==> a <= lerp(a, b, e, d) <= b,
        b < a ==> b <= lerp(a, b, e, d) <= a,
{
    let n = (b - a) * e;
    let q = n / d;
    lemma_fundamental_div_mod(n, d);
    lemma_mod_bound(n, d);
    let r = n % d;
    if a <= b {
        assert(0 <= q <= b - a) by (nonlinear_arith)
            requires
                n == (b - a) * e,
                n == d * q + r,
                0 <= r < d,
                0 <= e < d,
                a <= b,
        {
        }
    } else {
        assert(b - a <= q <= 0) by (nonlinear_arith)
            requires
                n == (b - a) * e,
                n == d * q + r,
                0 <= r < d,
                0 <= e < d,
                b < a,
        {
        }
    }
}

fn lerp_coord(a: i64, b: i64, e: u64, d: u32) -> (r: i64)
    requires
        e < d,
        -NEAR_LIMIT <= a <= NEAR_LIMIT,
        -NEAR_LIMIT <= b <= NEAR_LIMIT,
    ensures
        r == lerp(a as int, b as int, e as int, d as int),
        -NEAR_LIMIT <= r <= NEAR_LIMIT,
{
    proof {
        lemma_lerp_between(a as int, b as int, e as int, d as int);
    }
    let diff: i128 = b as i128 - a as i128;
    assert(-0x10_0000_0000_0000_0000_0000_0000 <= diff * (e as i128) <= 0x10_0000_0000_0000_0000_0000_0000)
        by (nonlinear_arith)
        requires
            -0x8_0000_0000_0000 <= diff <= 0x8_0000_0000_0000,
            0 <= e <= 0xFFFF_FFFF,
    {
    }
    let q = floor_div(diff * (e as i128), d as i128);
    (a as i128 + q) as i64
}

pub fn push_step(m: &mut Monster, dt: u32)
    requires
        monster_wf(*old(m)),
    ensures
        *final(m) == pushed_after(*old(m), dt as int),
        monster_wf(*final(m)),
{
    if let Some(p) = m.wind_push {
        let e: u64 = p.elapsed + dt as u64;
        if e >= p.duration as u64 {
            m.position = p.target_pos;
            m.wind_push = None;
            m.movement.enabled = true;
        } else {
            let x = lerp_coord(p.start_pos.x, p.target_pos.x, e, p.duration);
            let y = lerp_coord(p.start_pos.y, p.target_pos.y, e, p.duration);
            m.position = WorldPosition { x, y };
            m.wind_push = Some(WindPush { elapsed: e, ..p });
        }
    }
}

/// Advances every wind push in progress by `dt` ms.
pub fn wind_push_system(monsters: &mut Vec<Monster>, dt: u32)
    requires
        all_wf(old(monsters)@),
    ensures
        final(monsters)@ == old(monsters)@.map_values(|m: Monster| pushed_after(m, dt as int)),
        all_wf(final(monsters)@),
{
    let ghost s0 = monsters@;
    let mut i: usize = 0;
    while i < monsters.len()
        invariant
            i <= monsters.len() == s0.len(),
            all_wf(s0),
            forall|j: int| 0 <= j < i ==> monsters@[j] == pushed_after(s0[j], dt as int),
            forall|j: int| 0 <= j < i ==> monster_wf(#[trigger] monsters@[j]),
            forall|j: int| i <= j < s0.len() ==> monsters@[j] == s0[j],
        decreases monsters.len() - i,
    {
        let mut m = monsters[i];
        push_step(&mut m, dt);
        monsters[i] = m;
        i += 1;
    }
    assert(monsters@ =~= s0.map_values(|m: Monster| pushed_after(m, dt as int)));
}

} // verus!
