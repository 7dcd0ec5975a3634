use vstd::arithmetic::div_mod::{lemma_div_pos_is_pos, lemma_fundamental_div_mod, lemma_mod_pos_bound};
use vstd::prelude::*;

use crate::components::{
    brightness_of, meter_after, pace_after, pace_wf, progress_of, CollisionBox, CollisionState,
    DespawnCause, MonsterDespawnEvent, MonsterProperty, MonsterState, Movement, MyPaceTimer,
    StagingTimer, WaitMeter,
};
use crate::definitions::SpecialBehavior;
use crate::obstacle::{OnSwamp, WindAffected, WindPush};
use crate::types::{Direction, unit_x, unit_y, WorldPosition, FIELD_HEIGHT, FIELD_WIDTH, GRID_SIZE};

verus! {

/// How far ahead a monster looks for others: a tenth of a cell.
pub const CHECK_DISTANCE: i64 = 6_400;

/// How far past the field's edge a monster must go to have crossed it: two cells.
pub const EXIT_MARGIN: i64 = 128_000;

/// Bound on the coordinates of a monster that has not crossed the field.
pub const NEAR_LIMIT: i64 = 0x4_0000_0000_0000;

/// Bound on the coordinates of any monster.
pub const POS_LIMIT: i64 = 0x100_0000_0000_0000;

/// Bound on the sides of a collision box.
pub const BOX_LIMIT: i64 = 0x100_0000_0000;

/// One monster on the field, with every component it carries.
#[derive(Debug, Clone, Copy, PartialEq, Eq, Structural)]
pub struct Monster {
    /// Identity, unique among the monsters of a simulation.
    pub id: u64,
    pub state: MonsterState,
    pub property: MonsterProperty,
    pub movement: Movement,
    pub position: WorldPosition,
    pub collision_box: CollisionBox,
    pub collision: CollisionState,
    pub wait_meter: WaitMeter,
    pub staging_timer: StagingTimer,
    pub behavior: SpecialBehavior,
    /// Present for monsters of the stop-now-and-then behaviour.
    pub pace_timer: Option<MyPaceTimer>,
    /// Present while the monster stands on a slow zone.
    pub on_swamp: Option<OnSwamp>,
    /// The wind cell that pushed the monster last, while it is still on it.
    pub wind_affected: Option<WindAffected>,
    /// Present while a wind push carries the monster.
    pub wind_push: Option<WindPush>,
}

pub open spec fn within(p: WorldPosition, limit: int) -> bool {
    -limit <= p.x <= limit && -limit <= p.y <= limit
}

/// The bounds that keep every computation of a tick within machine integers.
pub open spec fn monster_wf(m: Monster) -> bool {
    &&& within(m.position, POS_LIMIT as int)
    &&& m.state != MonsterState::Reached ==> within(m.position, NEAR_LIMIT as int)
    &&& 0 <= m.collision_box.width <= BOX_LIMIT
    &&& 0 <= m.collision_box.height <= BOX_LIMIT
    &&& m.pace_timer matches Some(t) ==> pace_wf(t)
    &&& m.on_swamp matches Some(o) ==> o.speed_multiplier <= 100
    &&& m.wind_push matches Some(p) ==> {
        &&& within(p.start_pos, NEAR_LIMIT as int)
        &&& within(p.target_pos, NEAR_LIMIT as int)
        &&& p.elapsed < p.duration
    }
}

/// The wait meter has not passed its threshold; true of every monster between ticks.
pub open spec fn meter_ok(m: Monster) -> bool {
    m.wait_meter.current <= m.wait_meter.threshold
}

pub open spec fn all_wf(s: Seq<Monster>) -> bool {
    forall|i: int| 0 <= i < s.len() ==> monster_wf(#[trigger] s[i])
}

// ---------------------------------------------------------------- staging

/// A staging monster counts down by `dt`; when nothing is left it starts walking.
pub open spec fn staging_after(m: Monster, dt: int) -> Monster {
    if m.state == MonsterState::Staging {
        let rem = if m.staging_timer.remaining <= dt { 0 } else { m.staging_timer.remaining - dt };
        Monster {
            staging_timer: StagingTimer { remaining: rem as u64 },
            state: if rem == 0 { MonsterState::Moving } else { MonsterState::Staging },
            ..m
        }
    } else {
        m
    }
}

pub fn staging_step(m: &mut Monster, dt: u32)
    ensures
        *final(m) == staging_after(*old(m), dt as int),
{
    if m.state == MonsterState::Staging {
        m.staging_timer.remaining = m.staging_timer.remaining.saturating_sub(dt as u64);
        if m.staging_timer.remaining == 0 {
            m.state = MonsterState::Moving;
        }
    }
}

/// Advances the staging countdown of every monster by `dt` ms.
pub fn staging_timer_system(monsters: &mut Vec<Monster>, dt: u32)
    ensures
        final(monsters)@ == old(monsters)@.map_values(|m: Monster| staging_after(m, dt as int)),
        all_wf(old(monsters)@) ==> all_wf(final(monsters)@),
{
    let ghost s0 = monsters@;
    let mut i: usize = 0;
    while i < monsters.len()
        invariant
            i <= monsters.len() == s0.len(),
            forall|j: int| 0 <= j < i ==> monsters@[j] == staging_after(s0[j], dt as int),
            forall|j: int| i <= j < s0.len() ==> monsters@[j] == s0[j],
        decreases monsters.len() - i,
    {
        let mut m = monsters[i];
        staging_step(&mut m, dt);
        monsters[i] = m;
        i += 1;
    }
    assert(monsters@ =~= s0.map_values(|m: Monster| staging_after(m, dt as int)));
    assert(all_wf(s0) ==> all_wf(monsters@)) by {
        if all_wf(s0) {
            assert forall|j: int| 0 <= j < monsters@.len() implies monster_wf(#[trigger] monsters@[j]) by {
                assert(monster_wf(s0[j]));
            }
        }
    }
}

// ---------------------------------------------------------------- innate behaviour

/// A walking monster with a pace clock advances it; the clock decides whether it walks.
pub open spec fn pace_step_after(m: Monster, dt: int) -> Monster {
    if m.state == MonsterState::Moving && m.pace_timer is Some {
        let r = pace_after(m.pace_timer.unwrap(), m.movement.enabled, dt);
        Monster { pace_timer: Some(r.0), movement: Movement { enabled: r.1, ..m.movement }, ..m }
    } else {
        m
    }
}

pub fn pace_step(m: &mut Monster, dt: u32)
    requires
        monster_wf(*old(m)),
    ensures
        *final(m) == pace_step_after(*old(m), dt as int),
        monster_wf(*final(m)),
{
    if m.state == MonsterState::Moving {
        if let Some(t) = m.pace_timer {
            let mut t = t;
            let enabled = t.tick(m.movement.enabled, dt);
            m.pace_timer = Some(t);
            m.movement.enabled = enabled;
        }
    }
}

/// Runs the stop-now-and-then clock of every walking monster that has one.
pub fn my_pace_system(monsters: &mut Vec<Monster>, dt: u32)
    requires
        all_wf(old(monsters)@),
    ensures
        final(monsters)@ == old(monsters)@.map_values(|m: Monster| pace_step_after(m, dt as int)),
        all_wf(final(monsters)@),
{
    let ghost s0 = monsters@;
    let mut i: usize = 0;
    while i < monsters.len()
        invariant
            i <= monsters.len() == s0.len(),
            all_wf(s0),
            forall|j: int| 0 <= j < i ==> monsters@[j] == pace_step_after(s0[j], dt as int),
            forall|j: int| 0 <= j < i ==> monster_wf(#[trigger] monsters@[j]),
            forall|j: int| i <= j < s0.len() ==> monsters@[j] == s0[j],
        decreases monsters.len() - i,
    {
        let mut m = monsters[i];
        pace_step(&mut m, dt);
        monsters[i] = m;
        i += 1;
    }
    assert(monsters@ =~= s0.map_values(|m: Monster| pace_step_after(m, dt as int)));
}

// ---------------------------------------------------------------- collision

/// Where a monster looks for others: a little ahead of it, along its direction.
pub open spec fn predicted_x(m: Monster) -> int {
    m.position.x + unit_x(m.movement.direction) * CHECK_DISTANCE
}

pub open spec fn predicted_y(m: Monster) -> int {
    m.position.y + unit_y(m.movement.direction) * CHECK_DISTANCE
}

pub open spec fn abs(v: int) -> int {
    if v < 0 { -v } else { v }
}

/// Two boxes, given by centre and sides, overlap: on each axis the distance of the
/// centres is under the sum of the half sides.
pub open spec fn boxes_overlap(ax: int, ay: int, aw: int, ah: int, bx: int, by: int, bw: int, bh: int) -> bool {
    2 * abs(ax - bx) < aw + bw && 2 * abs(ay - by) < ah + bh
}

/// A pair in which either monster passes through never blocks.
pub open spec fn exempt(a: Monster, b: Monster) -> bool {
    a.behavior == SpecialBehavior::PassThrough || b.behavior == SpecialBehavior::PassThrough
}

/// `b` stands where `a` is about to go.
pub open spec fn blocks(a: Monster, b: Monster) -> bool {
    &&& b.state == MonsterState::Moving
    &&& !exempt(a, b)
    &&& boxes_overlap(
        predicted_x(a),
        predicted_y(a),
        a.collision_box.width as int,
        a.collision_box.height as int,
        b.position.x as int,
        b.position.y as int,
        b.collision_box.width as int,
        b.collision_box.height as int,
    )
}

/// A walking monster that no push carries is blocked when some other monster blocks it.
pub open spec fn is_blocked(s: Seq<Monster>, i: int) -> bool {
    &&& s[i].state == MonsterState::Moving
    &&& s[i].wind_push is None
    &&& exists|j: int| 0 <= j < s.len() && j != i && blocks(s[i], #[trigger] s[j])
}

pub open spec fn collided(s: Seq<Monster>) -> Seq<Monster> {
    Seq::new(
        s.len(),
        |i: int| Monster { collision: CollisionState { is_colliding: is_blocked(s, i) }, ..s[i] },
    )
}

/// Whether a box at `pos1` with sides `size1` overlaps one at `pos2` with sides `size2`.
fn check_aabb_collision(pos1: WorldPosition, size1: CollisionBox, pos2: WorldPosition, size2: CollisionBox) -> (r:
    bool)
    ensures
        r == boxes_overlap(
            pos1.x as int,
            pos1.y as int,
            size1.width as int,
            size1.height as int,
            pos2.x as int,
            pos2.y as int,
            size2.width as int,
            size2.height as int,
        ),
{
    let dx: i128 = pos1.x as i128 - pos2.x as i128;
    let dy: i128 = pos1.y as i128 - pos2.y as i128;
    let adx: i128 = if dx < 0 { -dx } else { dx };
    let ady: i128 = if dy < 0 { -dy } else { dy };
    2 * adx < size1.width as i128 + size2.width as i128 && 2 * ady < size1.height as i128 + size2.height as i128
}

fn predicted_position(m: &Monster) -> (r: WorldPosition)
    requires
        within(m.position, NEAR_LIMIT as int),
    ensures
        r.x == predicted_x(*m),
        r.y == predicted_y(*m),
{
    let (dx, dy) = m.movement.direction.to_vector();
    WorldPosition { x: m.position.x + dx * CHECK_DISTANCE, y: m.position.y + dy * CHECK_DISTANCE }
}

fn blocked_flag(monsters: &Vec<Monster>, i: usize) -> (r: bool)
    requires
        i < monsters.len(),
        all_wf(monsters@),
    ensures
        r == is_blocked(monsters@, i as int),
{
    let me = &monsters[i];
    if me.state != MonsterState::Moving || me.wind_push.is_some() {
        return false;
    }
    let p = predicted_position(me);
    let mut j: usize = 0;
    while j < monsters.len()
        invariant
            i < monsters.len(),
            j <= monsters.len(),
            *me == monsters@[i as int],
            me.state == MonsterState::Moving,
            me.wind_push is None,
            p.x == predicted_x(*me),
            p.y == predicted_y(*me),
            forall|k: int| 0 <= k < j && k != i ==> !blocks(*me, #[trigger] monsters@[k]),
        decreases monsters.len() - j,
    {
        let other = &monsters[j];
        if j != i && other.state == MonsterState::Moving && !(me.behavior == SpecialBehavior::PassThrough
            || other.behavior == SpecialBehavior::PassThrough) && check_aabb_collision(
            p,
            me.collision_box,
            other.position,
            other.collision_box,
        ) {
            assert(blocks(monsters@[i as int], monsters@[j as int]));
            assert(exists|k: int|
                0 <= k < monsters@.len() && k != i && blocks(monsters@[i as int], #[trigger] monsters@[k]));
            return true;
        }
        j += 1;
    }
    false
}

/// Marks each walking monster that is about to run into another one as blocked; every
/// other monster as free.
pub fn collision_detection_system(monsters: &mut Vec<Monster>)
    requires
        all_wf(old(monsters)@),
    ensures
        final(monsters)@ == collided(old(monsters)@),
        all_wf(final(monsters)@),
{
    let ghost s0 = monsters@;
    let mut flags: Vec<bool> = Vec::new();
    let mut i: usize = 0;
    while i < monsters.len()
        invariant
            monsters@ == s0,
            all_wf(s0),
            i <= s0.len(),
            flags@.len() == i,
            forall|j: int| 0 <= j < i ==> flags@[j] == is_blocked(s0, j),
        decreases monsters.len() - i,
    {
        let f = blocked_flag(monsters, i);
        flags.push(f);
        i += 1;
    }
    let mut i: usize = 0;
    while i < monsters.len()
        invariant
            i <= monsters.len() == s0.len() == flags@.len(),
            forall|j: int| 0 <= j < s0.len() ==> flags@[j] == is_blocked(s0, j),
            forall|j: int| 0 <= j < i ==> monsters@[j] == collided(s0)[j],
            forall|j: int| i <= j < s0.len() ==> monsters@[j] == s0[j],
        decreases monsters.len() - i,
    {
        let mut m = monsters[i];
        m.collision.is_colliding = flags[i];
        monsters[i] = m;
        i += 1;
    }
    assert(monsters@ =~= collided(s0));
    assert forall|j: int| 0 <= j < monsters@.len() implies monster_wf(#[trigger] monsters@[j]) by {
        assert(monster_wf(s0[j]));
    }
}

// ---------------------------------------------------------------- movement

/// Distance walked in `dt` ms at `speed` milli-pixels per second.
pub open spec fn step_len(speed: int, dt: int) -> int {
    speed * dt / 1000
}

/// A point more than the margin beyond the field's edge, on either axis.
pub open spec fn out_of_bounds(x: int, y: int) -> bool {
    let w = FIELD_WIDTH * GRID_SIZE;
    let h = FIELD_HEIGHT * GRID_SIZE;
    2 * x < -w - 2 * EXIT_MARGIN || 2 * x > w + 2 * EXIT_MARGIN || 2 * y < -h - 2 * EXIT_MARGIN || 2 * y > h + 2
        * EXIT_MARGIN
}

/// A walking, free, enabled monster moves along its direction; past the edge it has
/// crossed the field.
pub open spec fn moved_after(m: Monster, dt: int) -> Monster {
    if m.state == MonsterState::Moving && !m.collision.is_colliding && m.movement.enabled {
        let d = step_len(m.movement.speed as int, dt);
        let x = m.position.x + unit_x(m.movement.direction) * d;
        let y = m.position.y + unit_y(m.movement.direction) * d;
        Monster {
            position: WorldPosition { x: x as i64, y: y as i64 },
            state: if out_of_bounds(x, y) { MonsterState::Reached } else { MonsterState::Moving },
            ..m
        }
    } else {
        m
    }
}

/// Whether `position` lies more than the margin beyond the field.
fn is_out_of_bounds(position: WorldPosition) -> (r: bool)
    ensures
        r == out_of_bounds(position.x as int, position.y as int),
{
    let w: i128 = FIELD_WIDTH as i128 * GRID_SIZE as i128;
    let h: i128 = FIELD_HEIGHT as i128 * GRID_SIZE as i128;
    let m: i128 = 2 * EXIT_MARGIN as i128;
    assert(w == 640_000 && h == 640_000) by (nonlinear_arith)
        requires
            w == FIELD_WIDTH as i128 * GRID_SIZE as i128,
            h == FIELD_HEIGHT as i128 * GRID_SIZE as i128,
            FIELD_WIDTH == 10,
            FIELD_HEIGHT == 10,
            GRID_SIZE == 64_000,
    {
    }
    let x: i128 = 2 * position.x as i128;
    let y: i128 = 2 * position.y as i128;
    x < -w - m || x > w + m || y < -h - m || y > h + m
}

proof fn lemma_step_bound(speed: int, dt: int)
    requires
        0 <= speed <= u32::MAX,
        0 <= dt <= u32::MAX,
    ensures
        0 <= step_len(speed, dt) <= 0x80_0000_0000_0000,
{
    let c: int = 0xFFFF_FFFFint * 0xFFFF_FFFFint;
    assert(0 <= speed * dt <= c) by (nonlinear_arith)
        requires
            0 <= speed <= u32::MAX,
            0 <= dt <= u32::MAX,
            c == 0xFFFF_FFFFint * 0xFFFF_FFFFint,
    {
    }
    let x = speed * dt;
    let q = x / 1000;
    lemma_fundamental_div_mod(x, 1000);
    lemma_mod_pos_bound(x, 1000);
    lemma_div_pos_is_pos(x, 1000);
    assert(q <= 0x80_0000_0000_0000) by (nonlinear_arith)
        requires
            1000 * q <= x,
            x <= c,
            c == 0xFFFF_FFFFint * 0xFFFF_FFFFint,
    {
    }
}

pub fn move_step(m: &mut Monster, dt: u32)
    requires
        monster_wf(*old(m)),
    ensures
        *final(m) == moved_after(*old(m), dt as int),
        monster_wf(*final(m)),
{
    if m.state == MonsterState::Moving && !m.collision.is_colliding && m.movement.enabled {
        proof {
            lemma_step_bound(m.movement.speed as int, dt as int);
        }
        assert(m.movement.speed as u64 * dt as u64 <= 0xFFFF_FFFF * 0xFFFF_FFFF) by (nonlinear_arith)
            requires
                m.movement.speed <= 0xFFFF_FFFFu32,
                dt <= 0xFFFF_FFFFu32,
        {
        }
        let d: u64 = (m.movement.speed as u64 * dt as u64) / 1000;
        let step = d as i64;
        let p = m.position;
        m.position = match m.movement.direction {
            Direction::Up => WorldPosition { x: p.x, y: p.y + step },
            Direction::Down => WorldPosition { x: p.x, y: p.y - step },
            Direction::Left => WorldPosition { x: p.x - step, y: p.y },
            Direction::Right => WorldPosition { x: p.x + step, y: p.y },
        };
        if is_out_of_bounds(m.position) {
            m.state = MonsterState::Reached;
        } else {
            assert(within(m.position, NEAR_LIMIT as int));
        }
    }
}

/// Moves every walking, free, enabled monster by its speed over `dt` ms, and marks
/// those that went past the field's edge as having crossed it.
pub fn monster_movement_system(monsters: &mut Vec<Monster>, dt: u32)
    requires
        all_wf(old(monsters)@),
    ensures
        final(monsters)@ == old(monsters)@.map_values(|m: Monster| moved_after(m, dt as int)),
        all_wf(final(monsters)@),
{
    let ghost s0 = monsters@;
    let mut i: usize = 0;
    while i < monsters.len()
        invariant
            i <= monsters.len() == s0.len(),
            all_wf(s0),
            forall|j: int| 0 <= j < i ==> monsters@[j] == moved_after(s0[j], dt as int),
            forall|j: int| 0 <= j < i ==> monster_wf(#[trigger] monsters@[j]),
            forall|j: int| i <= j < s0.len() ==> monsters@[j] == s0[j],
        decreases monsters.len() - i,
    {
        let mut m = monsters[i];
        move_step(&mut m, dt);
        monsters[i] = m;
        i += 1;
    }
    assert(monsters@ =~= s0.map_values(|m: Monster| moved_after(m, dt as int)));
}

// ---------------------------------------------------------------- waiting

/// A walking monster accrues waiting time while blocked and starts from zero when free.
pub open spec fn waited_after(m: Monster, dt: int) -> Monster {
    if m.state == MonsterState::Moving {
        Monster { wait_meter: meter_after(m.wait_meter, m.collision.is_colliding, dt), ..m }
    } else {
        m
    }
}

/// Updates the wait meter of every walking monster.
pub fn update_wait_meter_system(monsters: &mut Vec<Monster>, dt: u32)
    requires
        forall|j: int| 0 <= j < old(monsters)@.len() ==> #[trigger] old(monsters)@[j].wait_meter.current <= u32::MAX,
    ensures
        final(monsters)@ == old(monsters)@.map_values(|m: Monster| waited_after(m, dt as int)),
        all_wf(old(monsters)@) ==> all_wf(final(monsters)@),
{
    let ghost s0 = monsters@;
    let mut i: usize = 0;
    while i < monsters.len()
        invariant
            i <= monsters.len() == s0.len(),
            forall|j: int| 0 <= j < s0.len() ==> #[trigger] s0[j].wait_meter.current <= u32::MAX,
            forall|j: int| 0 <= j < i ==> monsters@[j] == waited_after(s0[j], dt as int),
            forall|j: int| i <= j < s0.len() ==> monsters@[j] == s0[j],
        decreases monsters.len() - i,
    {
        let mut m = monsters[i];
        if m.state == MonsterState::Moving {
            let blocked = m.collision.is_colliding;
            m.wait_meter.update(blocked, dt);
        }
        monsters[i] = m;
        i += 1;
    }
    assert(monsters@ =~= s0.map_values(|m: Monster| waited_after(m, dt as int)));
    assert(all_wf(s0) ==> all_wf(monsters@)) by {
        if all_wf(s0) {
            assert forall|j: int| 0 <= j < monsters@.len() implies monster_wf(#[trigger] monsters@[j]) by {
                assert(monster_wf(s0[j]));
            }
        }
    }
}

/// Brightness of each monster's sprite, in thousandths: it darkens as the monster waits.
pub fn update_monster_color_system(monsters: &Vec<Monster>) -> (r: Vec<u32>)
    ensures
        r@.len() == monsters@.len(),
        forall|j: int|
            0 <= j < r@.len() ==> r@[j] == brightness_of(
                progress_of(
                    #[trigger] monsters@[j].wait_meter.current as int,
                    monsters@[j].wait_meter.threshold as int,
                ),
            ),
{
    let mut r: Vec<u32> = Vec::new();
    let mut i: usize = 0;
    while i < monsters.len()
        invariant
            i <= monsters.len(),
            r@.len() == i,
            forall|j: int|
                0 <= j < i ==> r@[j] == brightness_of(
                    progress_of(
                        #[trigger] monsters@[j].wait_meter.current as int,
                        monsters@[j].wait_meter.threshold as int,
                    ),
                ),
        decreases monsters.len() - i,
    {
        r.push(monsters[i].wait_meter.brightness());
        i += 1;
    }
    r
}

// ---------------------------------------------------------------- removal

pub open spec fn expired(m: Monster) -> bool {
    m.wait_meter.current >= m.wait_meter.threshold
}

pub open spec fn reached(m: Monster) -> bool {
    m.state == MonsterState::Reached
}

/// Whether `m` leaves the field for `cause`.
pub open spec fn leaves_for(m: Monster, cause: DespawnCause) -> bool {
    match cause {
        DespawnCause::WaitExpired => expired(m),
        DespawnCause::ReachedGoal => reached(m),
    }
}

/// The monsters of `s` that do not leave for `cause`, in order.
pub open spec fn kept(s: Seq<Monster>, cause: DespawnCause) -> Seq<Monster>
    decreases s.len(),
{
    if s.len() == 0 {
        Seq::empty()
    } else {
        let r = kept(s.drop_last(), cause);
        if leaves_for(s.last(), cause) { r } else { r.push(s.last()) }
    }
}

/// One event of `cause` for each monster of `s` that leaves for it, in order.
pub open spec fn departures(s: Seq<Monster>, cause: DespawnCause) -> Seq<MonsterDespawnEvent>
    decreases s.len(),
{
    if s.len() == 0 {
        Seq::empty()
    } else {
        let r = departures(s.drop_last(), cause);
        if leaves_for(s.last(), cause) {
            r.push(MonsterDespawnEvent { entity: s.last().id, cause })
        } else {
            r
        }
    }
}

proof fn lemma_prefix_step(s: Seq<Monster>, i: int)
    requires
        0 <= i < s.len(),
    ensures
        s.subrange(0, i + 1).drop_last() == s.subrange(0, i),
        s.subrange(0, i + 1).last() == s[i],
{
    assert(s.subrange(0, i + 1).drop_last() =~= s.subrange(0, i));
}

/// Removes the monsters whose wait meter has reached its threshold and returns one
/// wait-expired event for each, in order.
pub fn despawn_expired_monsters_system(monsters: &mut Vec<Monster>) -> (events: Vec<MonsterDespawnEvent>)
    ensures
        final(monsters)@ == kept(old(monsters)@, DespawnCause::WaitExpired),
        events@ == departures(old(monsters)@, DespawnCause::WaitExpired),
{
    let ghost s0 = monsters@;
    let mut rest: Vec<Monster> = Vec::new();
    let mut events: Vec<MonsterDespawnEvent> = Vec::new();
    let mut i: usize = 0;
    while i < monsters.len()
        invariant
            monsters@ == s0,
            i <= s0.len(),
            rest@ == kept(s0.subrange(0, i as int), DespawnCause::WaitExpired),
            events@ == departures(s0.subrange(0, i as int), DespawnCause::WaitExpired),
        decreases monsters.len() - i,
    {
        proof {
            lemma_prefix_step(s0, i as int);
        }
        let m = monsters[i];
        let ghost pre = s0.subrange(0, i as int);
        let ghost next = s0.subrange(0, i + 1);
        assert(next.drop_last() == pre && next.last() == m && next.len() > 0);
        if m.wait_meter.is_expired() {
            events.push(MonsterDespawnEvent { entity: m.id, cause: DespawnCause::WaitExpired });
        } else {
            rest.push(m);
        }
        assert(rest@ == kept(next, DespawnCause::WaitExpired));
        assert(events@ == departures(next, DespawnCause::WaitExpired));
        i += 1;
    }
    assert(s0.subrange(0, s0.len() as int) =~= s0);
    *monsters = rest;
    events
}

/// Removes the monsters that crossed the field and returns one goal event for each,
/// in order.
pub fn despawn_reached_monsters(monsters: &mut Vec<Monster>) -> (events: Vec<MonsterDespawnEvent>)
    ensures
        final(monsters)@ == kept(old(monsters)@, DespawnCause::ReachedGoal),
        events@ == departures(old(monsters)@, DespawnCause::ReachedGoal),
{
    let ghost s0 = monsters@;
    let mut rest: Vec<Monster> = Vec::new();
    let mut events: Vec<MonsterDespawnEvent> = Vec::new();
    let mut i: usize = 0;
    while i < monsters.len()
        invariant
            monsters@ == s0,
            i <= s0.len(),
            rest@ == kept(s0.subrange(0, i as int), DespawnCause::ReachedGoal),
            events@ == departures(s0.subrange(0, i as int), DespawnCause::ReachedGoal),
        decreases monsters.len() - i,
    {
        proof {
            lemma_prefix_step(s0, i as int);
        }
        let m = monsters[i];
        let ghost pre = s0.subrange(0, i as int);
        let ghost next = s0.subrange(0, i + 1);
        assert(next.drop_last() == pre && next.last() == m && next.len() > 0);
        if m.state == MonsterState::Reached {
            events.push(MonsterDespawnEvent { entity: m.id, cause: DespawnCause::ReachedGoal });
        } else {
            rest.push(m);
        }
        assert(rest@ == kept(next, DespawnCause::ReachedGoal));
        assert(events@ == departures(next, DespawnCause::ReachedGoal));
        i += 1;
    }
    assert(s0.subrange(0, s0.len() as int) =~= s0);
    *monsters = rest;
    events
}

} // verus!
