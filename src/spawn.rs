use vstd::prelude::*;

use crate::components::{
    CollisionBox, CollisionState, MonsterProperty, MonsterState, Movement, MyPaceTimer, StagingTimer,
    WaitMeter, STAGING_DURATION,
};
use crate::definitions::{MonsterDefinition, MonsterDefinitions, MonsterKind, SpecialBehavior};
use crate::monster::{monster_wf, Monster, NEAR_LIMIT};
use crate::obstacle::ObstacleDefinition;
use crate::types::{
    cell_centre, grid_to_world, Direction, GridPosition, WorldPosition, FIELD_HEIGHT, FIELD_WIDTH, GRID_SIZE,
};

verus! {

/// Distance from the centre of the field to the staging line, on either axis:
/// half the field and a cell and a half.
pub const STAGING_OFFSET: i64 = 416_000;

/// One monster of a wave.
#[derive(Debug, Clone, Copy, PartialEq, Eq, Structural)]
pub struct SpawnDefinition {
    pub kind: MonsterKind,
    pub direction: Direction,
    /// The lane: the row for monsters walking right or left, the column for those
    /// walking up or down.
    pub grid_pos: i32,
    /// In ms: from the wave's start in a wave, from the simulation's start once queued.
    pub delay: u64,
}

/// A group of monsters that starts at a set time.
pub struct WaveDefinition {
    /// In ms from the simulation's start.
    pub start_time: u64,
    pub monsters: Vec<SpawnDefinition>,
}

/// The waves of one level.
pub struct StageLevel {
    pub stage: u32,
    pub level: u32,
    pub waves: Vec<WaveDefinition>,
}

/// A level as a stage file describes it.
pub struct StageLevelAsset {
    pub stage: u32,
    pub level: u32,
    pub waves: Vec<WaveDefinition>,
    pub obstacles: Vec<ObstacleDefinition>,
}

pub open spec fn same_wave(a: WaveDefinition, b: WaveDefinition) -> bool {
    a.start_time == b.start_time && a.monsters@ == b.monsters@
}

pub open spec fn same_waves(a: Seq<WaveDefinition>, b: Seq<WaveDefinition>) -> bool {
    a.len() == b.len() && forall|i: int| 0 <= i < a.len() ==> same_wave(#[trigger] a[i], b[i])
}

fn copy_wave(w: &WaveDefinition) -> (r: WaveDefinition)
    ensures
        same_wave(r, *w),
{
    let mut monsters: Vec<SpawnDefinition> = Vec::new();
    let mut i: usize = 0;
    while i < w.monsters.len()
        invariant
            i <= w.monsters.len(),
            monsters@ == w.monsters@.subrange(0, i as int),
        decreases w.monsters.len() - i,
    {
        monsters.push(w.monsters[i]);
        assert(monsters@ =~= w.monsters@.subrange(0, i + 1));
        i += 1;
    }
    assert(w.monsters@.subrange(0, i as int) =~= w.monsters@);
    WaveDefinition { start_time: w.start_time, monsters }
}

fn copy_waves(waves: &Vec<WaveDefinition>) -> (r: Vec<WaveDefinition>)
    ensures
        same_waves(r@, waves@),
{
    let mut r: Vec<WaveDefinition> = Vec::new();
    let mut i: usize = 0;
    while i < waves.len()
        invariant
            i <= waves.len(),
            r@.len() == i,
            forall|j: int| 0 <= j < i ==> same_wave(#[trigger] r@[j], waves@[j]),
        decreases waves.len() - i,
    {
        r.push(copy_wave(&waves[i]));
        i += 1;
    }
    r
}

impl StageLevelAsset {
    /// The level's waves, without its terrain.
    pub fn to_stage_level(&self) -> (r: StageLevel)
        ensures
            r.stage == self.stage,
            r.level == self.level,
            same_waves(r.waves@, self.waves@),
    {
        StageLevel { stage: self.stage, level: self.level, waves: copy_waves(&self.waves) }
    }
}

// ---------------------------------------------------------------- queue

pub open spec fn sat_add(a: int, b: int) -> int {
    if a + b > u64::MAX { u64::MAX as int } else { a + b }
}

/// The monsters of a wave that starts at `start`, with delays counted from the
/// simulation's start.
pub open spec fn absolute(ms: Seq<SpawnDefinition>, start: u64) -> Seq<SpawnDefinition> {
    Seq::new(ms.len(), |i: int| SpawnDefinition { delay: sat_add(start as int, ms[i].delay as int) as u64, ..ms[i] })
}

/// Whether the `i`-th wave is promoted at time `t`.
pub open spec fn starts(waves: Seq<WaveDefinition>, processed: Seq<bool>, t: int, i: int) -> bool {
    !processed[i] && waves[i].start_time <= t
}

/// The monsters of the first `n` waves that are promoted at time `t`, in order.
pub open spec fn promoted(waves: Seq<WaveDefinition>, processed: Seq<bool>, t: int, n: int) -> Seq<SpawnDefinition>
    decreases n,
{
    if n <= 0 {
        Seq::empty()
    } else {
        let r = promoted(waves, processed, t, n - 1);
        if starts(waves, processed, t, n - 1) {
            r + absolute(waves[n - 1].monsters@, waves[n - 1].start_time)
        } else {
            r
        }
    }
}

/// The entries of `s` due at time `t`, in order.
pub open spec fn due(s: Seq<SpawnDefinition>, t: int) -> Seq<SpawnDefinition>
    decreases s.len(),
{
    if s.len() == 0 {
        Seq::empty()
    } else {
        let r = due(s.drop_last(), t);
        if s.last().delay <= t { r.push(s.last()) } else { r }
    }
}

/// The entries of `s` not yet due at time `t`, in order.
pub open spec fn pending(s: Seq<SpawnDefinition>, t: int) -> Seq<SpawnDefinition>
    decreases s.len(),
{
    if s.len() == 0 {
        Seq::empty()
    } else {
        let r = pending(s.drop_last(), t);
        if s.last().delay <= t { r } else { r.push(s.last()) }
    }
}

/// The schedule of a level: waves not yet started, and monsters waiting for their time.
pub struct MonsterSpawnQueue {
    /// Monsters of started waves, with delays from the simulation's start.
    pub spawns: Vec<SpawnDefinition>,
    pub waves: Vec<WaveDefinition>,
    /// Time since the simulation's start, in ms.
    pub timer: u64,
    /// Which waves have started.
    pub processed_waves: Vec<bool>,
}

impl MonsterSpawnQueue {
    pub open spec fn wf(&self) -> bool {
        self.processed_waves@.len() == self.waves@.len()
    }

    /// A queue at time zero with no wave started.
    pub fn new(waves: Vec<WaveDefinition>) -> (r: Self)
        ensures
            r.wf(),
            r.spawns@.len() == 0,
            r.waves@ == waves@,
            r.timer == 0,
            forall|i: int| 0 <= i < r.processed_waves@.len() ==> !(#[trigger] r.processed_waves@[i]),
    {
        let mut processed_waves: Vec<bool> = Vec::new();
        let mut i: usize = 0;
        while i < waves.len()
            invariant
                i <= waves.len(),
                processed_waves@.len() == i,
                forall|j: int| 0 <= j < i ==> !(#[trigger] processed_waves@[j]),
            decreases waves.len() - i,
        {
            processed_waves.push(false);
            i += 1;
        }
        MonsterSpawnQueue { spawns: Vec::new(), waves, timer: 0, processed_waves }
    }

    /// Advances the clock by `dt` ms. Every wave not yet started whose start time has
    /// come is started: its monsters join the end of the queue with delays counted from
    /// the simulation's start, and it never starts again. Then the queued monsters whose
    /// time has come leave the queue and are returned, in queue order.
    pub fn advance(&mut self, dt: u32) -> (r: Vec<SpawnDefinition>)
        requires
            old(self).wf(),
            old(self).timer + dt <= u64::MAX,
        ensures
            final(self).wf(),
            final(self).timer == old(self).timer + dt,
            final(self).waves@ == old(self).waves@,
            forall|i: int|
                0 <= i < old(self).waves@.len() ==> #[trigger] final(self).processed_waves@[i] == (
                old(self).processed_waves@[i] || old(self).waves@[i].start_time <= final(self).timer),
            r@ == due(
                old(self).spawns@ + promoted(
                    old(self).waves@,
                    old(self).processed_waves@,
                    final(self).timer as int,
                    old(self).waves@.len() as int,
                ),
                final(self).timer as int,
            ),
            final(self).spawns@ == pending(
                old(self).spawns@ + promoted(
                    old(self).waves@,
                    old(self).processed_waves@,
                    final(self).timer as int,
                    old(self).waves@.len() as int,
                ),
                final(self).timer as int,
            ),
    {
        self.timer = self.timer + dt as u64;
        let t = self.timer;
        let ghost p_start = self.processed_waves@;
        let ghost q0 = self.spawns@;
        let ghost w0 = self.waves@;
        let mut i: usize = 0;
        while i < self.waves.len()
            invariant
                i <= self.waves@.len() == p_start.len() == self.processed_waves@.len(),
                self.waves@ == w0,
                self.timer == t,
                self.spawns@ == q0 + promoted(self.waves@, p_start, t as int, i as int),
                forall|j: int|
                    0 <= j < i ==> #[trigger] self.processed_waves@[j] == (p_start[j] || self.waves@[j].start_time
                        <= t),
                forall|j: int| i <= j < p_start.len() ==> #[trigger] self.processed_waves@[j] == p_start[j],
            decreases self.waves.len() - i,
        {
            if !self.processed_waves[i] && self.waves[i].start_time <= t {
                let start = self.waves[i].start_time;
                let ghost before = self.spawns@;
                let ghost pw = self.processed_waves@;
                let mut k: usize = 0;
                while k < self.waves[i].monsters.len()
                    invariant
                        i < self.waves@.len() == p_start.len() == self.processed_waves@.len(),
                        self.waves@ == w0,
                        self.timer == t,
                        self.processed_waves@ == pw,
                        start == self.waves@[i as int].start_time,
                        k <= self.waves@[i as int].monsters@.len(),
                        self.spawns@ == before + absolute(self.waves@[i as int].monsters@, start).subrange(
                            0,
                            k as int,
                        ),
                    decreases self.waves@[i as int].monsters@.len() - k,
                {
                    let mut sd = self.waves[i].monsters[k];
                    sd.delay = start.saturating_add(sd.delay);
                    self.spawns.push(sd);
                    assert(self.spawns@ =~= before + absolute(self.waves@[i as int].monsters@, start).subrange(
                        0,
                        k + 1,
                    ));
                    k += 1;
                }
                assert(absolute(self.waves@[i as int].monsters@, start).subrange(0, k as int) =~= absolute(
                    self.waves@[i as int].monsters@,
                    start,
                ));
                self.processed_waves.set(i, true);
            }
            i += 1;
        }
        let ghost all = self.spawns@;
        let mut out: Vec<SpawnDefinition> = Vec::new();
        let mut rest: Vec<SpawnDefinition> = Vec::new();
        let mut j: usize = 0;
        while j < self.spawns.len()
            invariant
                self.spawns@ == all,
                self.waves@ == w0,
                self.timer == t,
                forall|i: int|
                    0 <= i < p_start.len() ==> #[trigger] self.processed_waves@[i] == (p_start[i] || w0[i].start_time <= t),
                self.processed_waves@.len() == p_start.len(),
                j <= all.len(),
                out@ == due(all.subrange(0, j as int), t as int),
                rest@ == pending(all.subrange(0, j as int), t as int),
            decreases self.spawns.len() - j,
        {
            proof {
                assert(all.subrange(0, j + 1).drop_last() =~= all.subrange(0, j as int));
            }
            let sd = self.spawns[j];
            if sd.delay <= t {
                out.push(sd);
            } else {
                rest.push(sd);
            }
            j += 1;
        }
        assert(all.subrange(0, j as int) =~= all);
        self.spawns = rest;
        out
    }
}

// ---------------------------------------------------------------- spawning

/// Where a monster entering along `direction` on lane `lane` waits.
pub open spec fn staging_position(direction: Direction, lane: i32) -> WorldPosition {
    match direction {
        Direction::Right => WorldPosition {
            x: (-STAGING_OFFSET) as i64,
            y: cell_centre(lane as int, GRID_SIZE as int, FIELD_HEIGHT as int) as i64,
        },
        Direction::Left => WorldPosition {
            x: STAGING_OFFSET,
            y: cell_centre(lane as int, GRID_SIZE as int, FIELD_HEIGHT as int) as i64,
        },
        Direction::Up => WorldPosition {
            x: cell_centre(lane as int, GRID_SIZE as int, FIELD_WIDTH as int) as i64,
            y: (-STAGING_OFFSET) as i64,
        },
        Direction::Down => WorldPosition {
            x: cell_centre(lane as int, GRID_SIZE as int, FIELD_WIDTH as int) as i64,
            y: STAGING_OFFSET,
        },
    }
}

proof fn lemma_lane_centre(lane: int)
    requires
        i32::MIN <= lane <= i32::MAX,
    ensures
        -NEAR_LIMIT <= cell_centre(lane, GRID_SIZE as int, 10) <= NEAR_LIMIT,
{
    let t = (2 * lane - 10 + 1) * 64_000int;
    assert(-0x2_0000_0000_0000 <= t <= 0x2_0000_0000_0000) by (nonlinear_arith)
        requires
            i32::MIN <= lane <= i32::MAX,
            t == (2 * lane - 10 + 1) * 64_000int,
    {
    }
}

/// Where a monster entering along `direction` on lane `grid_pos` waits: a cell and a
/// half outside the field, in line with the lane's centre.
fn get_staging_position(direction: Direction, grid_pos: i32) -> (r: WorldPosition)
    ensures
        r == staging_position(direction, grid_pos),
        -NEAR_LIMIT <= r.x <= NEAR_LIMIT,
        -NEAR_LIMIT <= r.y <= NEAR_LIMIT,
{
    proof {
        lemma_lane_centre(grid_pos as int);
    }
    match direction {
        Direction::Right => {
            let c = grid_to_world(GridPosition::new(0, grid_pos), GRID_SIZE, FIELD_WIDTH, FIELD_HEIGHT);
            WorldPosition { x: -STAGING_OFFSET, y: c.y }
        },
        Direction::Left => {
            let c = grid_to_world(GridPosition::new(0, grid_pos), GRID_SIZE, FIELD_WIDTH, FIELD_HEIGHT);
            WorldPosition { x: STAGING_OFFSET, y: c.y }
        },
        Direction::Up => {
            let c = grid_to_world(GridPosition::new(grid_pos, 0), GRID_SIZE, FIELD_WIDTH, FIELD_HEIGHT);
            WorldPosition { x: c.x, y: -STAGING_OFFSET }
        },
        Direction::Down => {
            let c = grid_to_world(GridPosition::new(grid_pos, 0), GRID_SIZE, FIELD_WIDTH, FIELD_HEIGHT);
            WorldPosition { x: c.x, y: STAGING_OFFSET }
        },
    }
}

/// The monster that `sd` describes, of definition `def`, with identity `id`: staging
/// at the edge, with a fresh wait meter and countdown.
pub open spec fn spawned(sd: SpawnDefinition, def: MonsterDefinition, id: u64) -> Monster {
    let side = (GRID_SIZE * def.size / 1000) as i64;
    Monster {
        id,
        state: MonsterState::Staging,
        property: MonsterProperty {
            kind: sd.kind,
            base_direction: sd.direction,
            base_speed: def.speed,
            base_size: def.size,
            base_color: def.color,
        },
        movement: Movement { direction: sd.direction, speed: def.speed, enabled: true },
        position: staging_position(sd.direction, sd.grid_pos),
        collision_box: CollisionBox { width: side, height: side },
        collision: CollisionState { is_colliding: false },
        wait_meter: WaitMeter { current: 0, threshold: def.wait_threshold, was_stopped: false },
        staging_timer: StagingTimer { remaining: STAGING_DURATION as u64 },
        behavior: def.special_behavior,
        pace_timer: match def.special_behavior {
            SpecialBehavior::MyPace { stop_interval, stop_duration } => Some(
                MyPaceTimer {
                    stop_interval,
                    stop_duration,
                    interval_elapsed: 0,
                    stop_elapsed: 0,
                    is_stopped: false,
                },
            ),
            _ => None,
        },
        on_swamp: None,
        wind_affected: None,
        wind_push: None,
    }
}

/// Creates the monster that `spawn_def` describes, with identity `id`.
pub fn spawn_monster(spawn_def: &SpawnDefinition, monster_defs: &MonsterDefinitions, id: u64) -> (r: Monster)
    requires
        monster_defs@.contains_key(spawn_def.kind),
    ensures
        r == spawned(*spawn_def, monster_defs@[spawn_def.kind], id),
        monster_wf(r),
{
    let def = monster_defs.get(spawn_def.kind);
    let position = get_staging_position(spawn_def.direction, spawn_def.grid_pos);
    assert(0 <= GRID_SIZE * def.size <= 64_000 * 0xFFFF_FFFFint) by (nonlinear_arith)
        requires
            0 <= def.size <= 0xFFFF_FFFFu32,
    {
    }
    let side: i64 = GRID_SIZE * def.size as i64 / 1000;
    let pace_timer = match def.special_behavior {
        SpecialBehavior::MyPace { stop_interval, stop_duration } => Some(
            MyPaceTimer::new(stop_interval, stop_duration),
        ),
        _ => None,
    };
    Monster {
        id,
        state: MonsterState::Staging,
        property: MonsterProperty::new(spawn_def.kind, spawn_def.direction, def.speed, def.size, def.color),
        movement: Movement::new(spawn_def.direction, def.speed),
        position,
        collision_box: CollisionBox::new(side, side),
        collision: CollisionState::new(),
        wait_meter: WaitMeter::new(def.wait_threshold),
        staging_timer: StagingTimer::new(STAGING_DURATION),
        behavior: def.special_behavior,
        pace_timer,
        on_swamp: None,
        wind_affected: None,
        wind_push: None,
    }
}

// ---------------------------------------------------------------- validation

/// Why a level cannot be played.
#[derive(Debug, Clone, Copy, PartialEq, Eq, Structural)]
pub enum ConfigError {
    /// A wave names a kind that has no definition.
    UnknownKind(MonsterKind),
    /// The level plans more monsters than there are identities.
    TooManySpawns,
}

/// Every monster of every wave has a definition.
pub open spec fn kinds_defined(defs: Map<MonsterKind, MonsterDefinition>, waves: Seq<WaveDefinition>) -> bool {
    forall|i: int, k: int|
        0 <= i < waves.len() && 0 <= k < waves[i].monsters@.len() ==> defs.contains_key(
            #[trigger] waves[i].monsters@[k].kind,
        )
}

/// Checks that every monster of every wave has a definition; names the first one
/// that has none.
pub fn validate_stage(monster_defs: &MonsterDefinitions, waves: &Vec<WaveDefinition>) -> (r: Result<(), ConfigError>)
    ensures
        r is Ok <==> kinds_defined(monster_defs@, waves@),
        r matches Err(e) ==> e matches ConfigError::UnknownKind(k) && !monster_defs@.contains_key(k),
{
    let mut i: usize = 0;
    while i < waves.len()
        invariant
            i <= waves.len(),
            forall|a: int, k: int|
                0 <= a < i && 0 <= k < waves@[a].monsters@.len() ==> monster_defs@.contains_key(
                    #[trigger] waves@[a].monsters@[k].kind,
                ),
        decreases waves.len() - i,
    {
        let mut k: usize = 0;
        while k < waves[i].monsters.len()
            invariant
                i < waves.len(),
                k <= waves@[i as int].monsters@.len(),
                forall|a: int, k: int|
                    0 <= a < i && 0 <= k < waves@[a].monsters@.len() ==> monster_defs@.contains_key(
                        #[trigger] waves@[a].monsters@[k].kind,
                    ),
                forall|j: int| 0 <= j < k ==> monster_defs@.contains_key(#[trigger] waves@[i as int].monsters@[j].kind),
            decreases waves@[i as int].monsters@.len() - k,
        {
            let kind = waves[i].monsters[k].kind;
            if !monster_defs.contains(kind) {
                return Err(ConfigError::UnknownKind(kind));
            }
            k += 1;
        }
        i += 1;
    }
    Ok(())
}

} // verus!
