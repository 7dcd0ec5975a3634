use vstd::prelude::*;

use crate::components::{DespawnCause, MonsterDespawnEvent};
use crate::definitions::{MonsterDefinition, MonsterDefinitions, MonsterKind};
use crate::item::{redirected_after, rotation_tile_effect_system, RotationTile};
use crate::monster::{
    all_wf, collided, collision_detection_system, departures, despawn_expired_monsters_system,
    despawn_reached_monsters, kept, leaves_for, meter_ok, monster_movement_system, monster_wf,
    moved_after, my_pace_system, pace_step_after, staging_after, staging_timer_system, update_wait_meter_system,
    waited_after, Monster,
};
use crate::obstacle::{
    apply_swamp_effect_system, detect_swamp_system, detected_after, is_cardinal, pushed_after, slowed_after,
    spawn_obstacles_from_stage, terrain_wf,
    wind_effect_system, wind_push_system, winded, ObstaclePosition, Swamp, Terrain,
};
use crate::spawn::{
    due, kinds_defined, pending, promoted, spawn_monster, spawned, starts, validate_stage, ConfigError,
    MonsterSpawnQueue, SpawnDefinition, StageLevelAsset, WaveDefinition,
};

verus! {

/// Number of monsters of the first `n` waves that have not started.
pub open spec fn unprocessed(waves: Seq<WaveDefinition>, processed: Seq<bool>, n: int) -> int
    decreases n,
{
    if n <= 0 {
        0
    } else {
        unprocessed(waves, processed, n - 1) + if processed[n - 1] {
            0
        } else {
            waves[n - 1].monsters@.len() as int
        }
    }
}

/// Number of monsters in all of `waves`.
pub open spec fn planned_total(waves: Seq<WaveDefinition>) -> int {
    unprocessed(waves, Seq::new(waves.len(), |j: int| false), waves.len() as int)
}

proof fn lemma_unprocessed_grows(w: Seq<WaveDefinition>, p: Seq<bool>, i: int, n: int)
    requires
        0 <= i <= n,
    ensures
        unprocessed(w, p, i) <= unprocessed(w, p, n),
    decreases n - i,
{
    if i < n {
        lemma_unprocessed_grows(w, p, i, n - 1);
    }
}

/// Every entry of `s` has a definition.
pub open spec fn all_defined(defs: Map<MonsterKind, MonsterDefinition>, s: Seq<SpawnDefinition>) -> bool {
    forall|i: int| 0 <= i < s.len() ==> defs.contains_key(#[trigger] s[i].kind)
}

/// The monsters that arrivals `ds` become, numbered from `id0`.
pub open spec fn spawned_seq(ds: Seq<SpawnDefinition>, defs: Map<MonsterKind, MonsterDefinition>, id0: int) -> Seq<
    Monster,
> {
    Seq::new(ds.len(), |i: int| spawned(ds[i], defs[ds[i].kind], (id0 + i) as u64))
}

/// The monsters after the stages of a tick that precede removal, in their fixed order:
/// staging, innate behaviour, slow zones (marking, then speed), wind, pushes, rotation tiles, collision,
/// movement and waiting. `offsets` are the wind directions drawn for the monsters.
pub open spec fn stepped(
    s0: Seq<Monster>,
    dt: int,
    swamps: Seq<Swamp>,
    winds: Seq<ObstaclePosition>,
    tiles: Seq<RotationTile>,
    offsets: Seq<crate::types::GridPosition>,
) -> Seq<Monster> {
    let s1 = s0.map_values(|m: Monster| staging_after(m, dt));
    let s2 = s1.map_values(|m: Monster| pace_step_after(m, dt));
    let s3 = s2.map_values(|m: Monster| detected_after(m, swamps)).map_values(|m: Monster| slowed_after(m));
    let s4 = winded(s3, winds, offsets);
    let s5 = s4.map_values(|m: Monster| pushed_after(m, dt));
    let s6 = s5.map_values(|m: Monster| redirected_after(m, tiles));
    let s7 = collided(s6);
    let s8 = s7.map_values(|m: Monster| moved_after(m, dt));
    s8.map_values(|m: Monster| waited_after(m, dt))
}

/// The survivors of a tick: those neither expired nor past the far edge.
pub open spec fn survivors(s: Seq<Monster>) -> Seq<Monster> {
    kept(kept(s, DespawnCause::WaitExpired), DespawnCause::ReachedGoal)
}

/// The events of a tick: expiries first, then goals, each in order.
pub open spec fn tick_events(s: Seq<Monster>) -> Seq<MonsterDespawnEvent> {
    departures(s, DespawnCause::WaitExpired) + departures(kept(s, DespawnCause::WaitExpired), DespawnCause::ReachedGoal)
}

proof fn lemma_due_pending(defs: Map<MonsterKind, MonsterDefinition>, s: Seq<SpawnDefinition>, t: int)
    ensures
        due(s, t).len() + pending(s, t).len() == s.len(),
        all_defined(defs, s) ==> all_defined(defs, due(s, t)) && all_defined(defs, pending(s, t)),
    decreases s.len(),
{
    if s.len() > 0 {
        lemma_due_pending(defs, s.drop_last(), t);
        if all_defined(defs, s) {
            assert(all_defined(defs, s.drop_last())) by {
                assert forall|i: int| 0 <= i < s.drop_last().len() implies defs.contains_key(
                    #[trigger] s.drop_last()[i].kind,
                ) by {
                    assert(s.drop_last()[i] == s[i]);
                }
            }
            assert(defs.contains_key(s[s.len() - 1].kind));
        }
    }
}

proof fn lemma_promoted(
    defs: Map<MonsterKind, MonsterDefinition>,
    w: Seq<WaveDefinition>,
    p: Seq<bool>,
    p_after: Seq<bool>,
    t: int,
    n: int,
)
    requires
        kinds_defined(defs, w),
        0 <= n <= w.len(),
        p.len() == w.len(),
        p_after.len() == w.len(),
        forall|i: int| 0 <= i < w.len() ==> #[trigger] p_after[i] == (p[i] || w[i].start_time <= t),
    ensures
        all_defined(defs, promoted(w, p, t, n)),
        promoted(w, p, t, n).len() + unprocessed(w, p_after, n) == unprocessed(w, p, n),
    decreases n,
{
    if n > 0 {
        lemma_promoted(defs, w, p, p_after, t, n - 1);
        let r = promoted(w, p, t, n - 1);
        if starts(w, p, t, n - 1) {
            let a = crate::spawn::absolute(w[n - 1].monsters@, w[n - 1].start_time);
            assert forall|i: int| 0 <= i < (r + a).len() implies defs.contains_key(#[trigger] (r + a)[i].kind) by {
                if i >= r.len() {
                    assert((r + a)[i] == a[i - r.len()]);
                    assert(defs.contains_key(w[n - 1].monsters@[i - r.len()].kind));
                } else {
                    assert((r + a)[i] == r[i]);
                }
            }
        }
    }
}

proof fn lemma_unprocessed_nonneg(w: Seq<WaveDefinition>, p: Seq<bool>, n: int)
    ensures
        unprocessed(w, p, n) >= 0,
    decreases n,
{
    if n > 0 {
        lemma_unprocessed_nonneg(w, p, n - 1);
    }
}

pub(crate) proof fn lemma_kept_from(s: Seq<Monster>, c: DespawnCause)
    ensures
        forall|k: int|
            0 <= k < kept(s, c).len() ==> exists|i: int|
                0 <= i < s.len() && #[trigger] kept(s, c)[k] == s[i] && !leaves_for(s[i], c),
    decreases s.len(),
{
    if s.len() > 0 {
        let s1 = s.drop_last();
        lemma_kept_from(s1, c);
        let r = kept(s1, c);
        assert forall|k: int| 0 <= k < kept(s, c).len() implies exists|i: int|
            0 <= i < s.len() && #[trigger] kept(s, c)[k] == s[i] && !leaves_for(s[i], c) by {
            if k < r.len() {
                assert(kept(s, c)[k] == r[k]);
                let i = choose|i: int| 0 <= i < s1.len() && r[k] == s1[i] && !leaves_for(s1[i], c);
                assert(s1[i] == s[i]);
            } else {
                assert(kept(s, c)[k] == s[s.len() - 1]);
            }
        }
    }
}

/// Advances the schedule by `dt` ms and creates the monsters whose time has come, in
/// queue order, numbered from `next_id` on.
pub fn spawn_monsters_system(
    queue: &mut MonsterSpawnQueue,
    monster_defs: &MonsterDefinitions,
    monsters: &mut Vec<Monster>,
    next_id: &mut u64,
    dt: u32,
)
    requires
        old(queue).wf(),
        old(queue).timer + dt <= u64::MAX,
        kinds_defined(monster_defs@, old(queue).waves@),
        all_defined(monster_defs@, old(queue).spawns@),
        *old(next_id) + old(queue).spawns@.len() + unprocessed(
            old(queue).waves@,
            old(queue).processed_waves@,
            old(queue).waves@.len() as int,
        ) <= u64::MAX,
    ensures
        final(queue).wf(),
        final(queue).timer == old(queue).timer + dt,
        final(queue).waves@ == old(queue).waves@,
        forall|i: int|
            0 <= i < old(queue).waves@.len() ==> #[trigger] final(queue).processed_waves@[i] == (
            old(queue).processed_waves@[i] || old(queue).waves@[i].start_time <= final(queue).timer),
        ({
            let t = final(queue).timer as int;
            let all = old(queue).spawns@ + promoted(
                old(queue).waves@,
                old(queue).processed_waves@,
                t,
                old(queue).waves@.len() as int,
            );
            &&& final(queue).spawns@ == pending(all, t)
            &&& *final(next_id) == *old(next_id) + due(all, t).len()
            &&& final(monsters)@ == old(monsters)@ + spawned_seq(due(all, t), monster_defs@, *old(next_id) as int)
        }),
        all_defined(monster_defs@, final(queue).spawns@),
        *final(next_id) + final(queue).spawns@.len() + unprocessed(
            final(queue).waves@,
            final(queue).processed_waves@,
            final(queue).waves@.len() as int,
        ) <= u64::MAX,
        all_wf(old(monsters)@) ==> all_wf(final(monsters)@),
        (forall|i: int| 0 <= i < old(monsters)@.len() ==> meter_ok(#[trigger] old(monsters)@[i])) ==> (forall|i: int|
            0 <= i < final(monsters)@.len() ==> meter_ok(#[trigger] final(monsters)@[i])),
{
    let ghost q_old = queue.spawns@;
    let ghost w_old = queue.waves@;
    let ghost p_old = queue.processed_waves@;
    let ghost id0 = *next_id;
    let ghost m_old = monsters@;
    let arrivals = queue.advance(dt);
    let ghost t = queue.timer as int;
    let ghost all = q_old + promoted(w_old, p_old, t, w_old.len() as int);
    let ghost p_new = queue.processed_waves@;
    proof {
        lemma_promoted(monster_defs@, w_old, p_old, p_new, t, w_old.len() as int);
        assert(all_defined(monster_defs@, all)) by {
            let pr = promoted(w_old, p_old, t, w_old.len() as int);
            assert forall|i: int| 0 <= i < all.len() implies monster_defs@.contains_key(#[trigger] all[i].kind) by {
                if i < q_old.len() {
                    assert(all[i] == q_old[i]);
                } else {
                    assert(all[i] == pr[i - q_old.len()]);
                }
            }
        }
        lemma_due_pending(monster_defs@, all, t);
        lemma_unprocessed_nonneg(w_old, p_new, w_old.len() as int);
    }
    let mut k: usize = 0;
    while k < arrivals.len()
        invariant
            k <= arrivals@.len(),
            arrivals@ == due(all, t),
            all_defined(monster_defs@, arrivals@),
            *next_id == id0 + k,
            id0 + arrivals@.len() <= u64::MAX,
            monsters@ == m_old + spawned_seq(arrivals@, monster_defs@, id0 as int).subrange(0, k as int),
            all_wf(m_old) ==> all_wf(monsters@),
            (forall|i: int| 0 <= i < m_old.len() ==> meter_ok(#[trigger] m_old[i])) ==> (forall|i: int|
                0 <= i < monsters@.len() ==> meter_ok(#[trigger] monsters@[i])),
        decreases arrivals.len() - k,
    {
        let ghost before = monsters@;
        let m = spawn_monster(&arrivals[k], monster_defs, *next_id);
        monsters.push(m);
        *next_id = *next_id + 1;
        proof {
            assert(monsters@ =~= m_old + spawned_seq(arrivals@, monster_defs@, id0 as int).subrange(0, k + 1));
            if all_wf(m_old) {
                assert forall|i: int| 0 <= i < monsters@.len() implies monster_wf(#[trigger] monsters@[i]) by {
                    if i == monsters@.len() - 1 {
                        assert(monsters@[i] == m);
                    } else {
                        assert(monsters@[i] == before[i]);
                    }
                }
            }
            if forall|i: int| 0 <= i < m_old.len() ==> meter_ok(#[trigger] m_old[i]) {
                assert forall|i: int| 0 <= i < monsters@.len() implies meter_ok(#[trigger] monsters@[i]) by {
                    if i == monsters@.len() - 1 {
                        assert(monsters@[i] == m);
                    } else {
                        assert(monsters@[i] == before[i]);
                    }
                }
            }
        }
        k += 1;
    }
    proof {
        assert(spawned_seq(arrivals@, monster_defs@, id0 as int).subrange(0, k as int) =~= spawned_seq(
            arrivals@,
            monster_defs@,
            id0 as int,
        ));
        let n = w_old.len() as int;
        assert(promoted(w_old, p_old, t, n).len() + unprocessed(w_old, p_new, n) == unprocessed(w_old, p_old, n));
        assert(all.len() == q_old.len() + promoted(w_old, p_old, t, n).len());
    }
}

/// A level in play: its definitions, schedule, terrain and tiles, and the monsters on
/// the field.
pub struct Simulation {
    pub definitions: MonsterDefinitions,
    pub queue: MonsterSpawnQueue,
    pub terrain: Terrain,
    pub tiles: Vec<RotationTile>,
    pub monsters: Vec<Monster>,
    /// Identity of the next monster to spawn.
    pub next_id: u64,
}

impl Simulation {
    /// What holds between ticks: every planned monster has a definition and an
    /// identity left for it, and every monster is within its bounds.
    pub open spec fn wf(&self) -> bool {
        &&& self.queue.wf()
        &&& terrain_wf(self.terrain)
        &&& all_wf(self.monsters@)
        &&& forall|i: int| 0 <= i < self.monsters@.len() ==> meter_ok(#[trigger] self.monsters@[i])
        &&& kinds_defined(self.definitions@, self.queue.waves@)
        &&& all_defined(self.definitions@, self.queue.spawns@)
        &&& self.next_id + self.queue.spawns@.len() + unprocessed(
            self.queue.waves@,
            self.queue.processed_waves@,
            self.queue.waves@.len() as int,
        ) <= u64::MAX
    }

    /// A level at time zero, or why it cannot be played.
    pub fn new(definitions: MonsterDefinitions, stage: StageLevelAsset) -> (r: Result<Simulation, ConfigError>)
        ensures
            !kinds_defined(definitions@, stage.waves@) <==> r matches Err(ConfigError::UnknownKind(_)),
            r matches Err(ConfigError::UnknownKind(k)) ==> !definitions@.contains_key(k),
            r matches Err(ConfigError::TooManySpawns) <==> kinds_defined(definitions@, stage.waves@) && planned_total(
                stage.waves@,
            ) > u64::MAX,
            r matches Ok(sim) ==> {
                &&& sim.wf()
                &&& sim.definitions@ == definitions@
                &&& sim.queue.waves@ == stage.waves@
                &&& sim.queue.timer == 0
                &&& sim.queue.spawns@.len() == 0
                &&& sim.monsters@.len() == 0
                &&& sim.tiles@.len() == 0
                &&& sim.terrain.swamps@ == crate::obstacle::swamps_of(stage.obstacles@)
                &&& sim.terrain.winds@ == crate::obstacle::winds_of(stage.obstacles@)
            },
    {
        let ghost w = stage.waves@;
        match validate_stage(&definitions, &stage.waves) {
            Err(e) => {
                return Err(e);
            },
            Ok(()) => {},
        }
        let mut total: u64 = 0;
        let mut i: usize = 0;
        while i < stage.waves.len()
            invariant
                kinds_defined(definitions@, stage.waves@),
                i <= stage.waves@.len(),
                total == unprocessed(stage.waves@, Seq::new(stage.waves@.len(), |j: int| false), i as int),
            decreases stage.waves.len() - i,
        {
            let n = stage.waves[i].monsters.len() as u64;
            if total > u64::MAX - n {
                proof {
                    lemma_unprocessed_grows(
                        stage.waves@,
                        Seq::new(stage.waves@.len(), |j: int| false),
                        i + 1,
                        stage.waves@.len() as int,
                    );
                }
                return Err(ConfigError::TooManySpawns);
            }
            total = total + n;
            i += 1;
        }
        let terrain = spawn_obstacles_from_stage(&stage.obstacles);
        let queue = MonsterSpawnQueue::new(stage.waves);
        assert(queue.processed_waves@ =~= Seq::new(w.len(), |j: int| false));
        Ok(Simulation { definitions, queue, terrain, tiles: Vec::new(), monsters: Vec::new(), next_id: 0 })
    }

    /// One step of `dt` ms. New monsters are spawned, then every stage runs over all
    /// monsters in its fixed order, and at the end the monsters that waited too long and
    /// those past the far edge are removed, each with one event.
    pub fn tick(&mut self, dt: u32) -> (events: Vec<MonsterDespawnEvent>)
        requires
            old(self).wf(),
            old(self).queue.timer + dt <= u64::MAX,
        ensures
            final(self).wf(),
            final(self).definitions@ == old(self).definitions@,
            final(self).terrain.swamps@ == old(self).terrain.swamps@,
            final(self).terrain.winds@ == old(self).terrain.winds@,
            final(self).tiles@ == old(self).tiles@,
            final(self).queue.timer == old(self).queue.timer + dt,
            final(self).queue.waves@ == old(self).queue.waves@,
            ({
                let t = final(self).queue.timer as int;
                let all = old(self).queue.spawns@ + promoted(
                    old(self).queue.waves@,
                    old(self).queue.processed_waves@,
                    t,
                    old(self).queue.waves@.len() as int,
                );
                let arrivals = due(all, t);
                &&& final(self).queue.spawns@ == pending(all, t)
                &&& final(self).next_id == old(self).next_id + arrivals.len()
                &&& exists|offsets: Seq<crate::types::GridPosition>|
                    {
                        &&& offsets.len() == old(self).monsters@.len() + arrivals.len()
                        &&& forall|k: int| 0 <= k < offsets.len() ==> is_cardinal(#[trigger] offsets[k])
                        &&& final(self).monsters@ == survivors(
                            stepped(
                                old(self).monsters@ + spawned_seq(
                                    arrivals,
                                    old(self).definitions@,
                                    old(self).next_id as int,
                                ),
                                dt as int,
                                old(self).terrain.swamps@,
                                old(self).terrain.winds@,
                                old(self).tiles@,
                                offsets,
                            ),
                        )
                        &&& events@ == tick_events(
                            stepped(
                                old(self).monsters@ + spawned_seq(
                                    arrivals,
                                    old(self).definitions@,
                                    old(self).next_id as int,
                                ),
                                dt as int,
                                old(self).terrain.swamps@,
                                old(self).terrain.winds@,
                                old(self).tiles@,
                                offsets,
                            ),
                        )
                    }
            }),
    {
        let ghost m_old = self.monsters@;
        spawn_monsters_system(&mut self.queue, &self.definitions, &mut self.monsters, &mut self.next_id, dt);
        let ghost s0 = self.monsters@;
        let ghost t = self.queue.timer as int;
        let ghost arrivals = due(
            old(self).queue.spawns@ + promoted(
                old(self).queue.waves@,
                old(self).queue.processed_waves@,
                t,
                old(self).queue.waves@.len() as int,
            ),
            t,
        );
        assert(s0 == m_old + spawned_seq(arrivals, self.definitions@, old(self).next_id as int));
        // the stages
        staging_timer_system(&mut self.monsters, dt);
        my_pace_system(&mut self.monsters, dt);
        detect_swamp_system(&mut self.monsters, &self.terrain);
        apply_swamp_effect_system(&mut self.monsters);
        let ghost s3 = self.monsters@;
        wind_effect_system(&mut self.monsters, &self.terrain);
        let ghost offsets = choose|offsets: Seq<crate::types::GridPosition>|
            offsets.len() == s3.len() && (forall|k: int| 0 <= k < offsets.len() ==> is_cardinal(#[trigger] offsets[k]))
                && self.monsters@ == winded(s3, self.terrain.winds@, offsets);
        wind_push_system(&mut self.monsters, dt);
        rotation_tile_effect_system(&mut self.monsters, &self.tiles);
        collision_detection_system(&mut self.monsters);
        monster_movement_system(&mut self.monsters, dt);
        let ghost s8 = self.monsters@;
        proof {
            assert forall|j: int| 0 <= j < s8.len() implies #[trigger] s8[j].wait_meter.current <= u32::MAX by {
                assert(s8[j].wait_meter == s0[j].wait_meter);
                assert(meter_ok(s0[j]));
            }
        }
        update_wait_meter_system(&mut self.monsters, dt);
        let ghost s9 = self.monsters@;
        proof {
            assert(s9 == stepped(s0, dt as int, self.terrain.swamps@, self.terrain.winds@, self.tiles@, offsets));
            assert(offsets.len() == old(self).monsters@.len() + arrivals.len());
        }
        let mut events = despawn_expired_monsters_system(&mut self.monsters);
        let reached = despawn_reached_monsters(&mut self.monsters);
        let mut j: usize = 0;
        let ghost e1 = events@;
        while j < reached.len()
            invariant
                j <= reached@.len(),
                events@ == e1 + reached@.subrange(0, j as int),
            decreases reached.len() - j,
        {
            events.push(reached[j]);
            assert(events@ =~= e1 + reached@.subrange(0, j + 1));
            j += 1;
        }
        proof {
            assert(reached@.subrange(0, j as int) =~= reached@);
            let k1 = kept(s9, DespawnCause::WaitExpired);
            lemma_kept_from(s9, DespawnCause::WaitExpired);
            lemma_kept_from(k1, DespawnCause::ReachedGoal);
            assert forall|i: int| 0 <= i < self.monsters@.len() implies monster_wf(#[trigger] self.monsters@[i])
                && meter_ok(self.monsters@[i]) by {
                let a = choose|a: int|
                    0 <= a < k1.len() && #[trigger] self.monsters@[i] == k1[a] && !leaves_for(
                        k1[a],
                        DespawnCause::ReachedGoal,
                    );
                let b = choose|b: int|
                    0 <= b < s9.len() && #[trigger] k1[a] == s9[b] && !leaves_for(s9[b], DespawnCause::WaitExpired);
                assert(monster_wf(s9[b]));
            }
            assert(self.queue.timer == t);
            assert(self.queue.spawns@ == pending(
                old(self).queue.spawns@ + promoted(
                    old(self).queue.waves@,
                    old(self).queue.processed_waves@,
                    t,
                    old(self).queue.waves@.len() as int,
                ),
                t,
            ));
            assert(self.next_id == old(self).next_id + arrivals.len());
            assert(self.monsters@ == survivors(s9));
            assert(events@ == tick_events(s9));
        }
        events
    }
}

} // verus!
