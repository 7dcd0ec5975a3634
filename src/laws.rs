use vstd::prelude::*;

use crate::components::{DespawnCause, MonsterDespawnEvent, MonsterState};
use crate::item::RotationTile;
use crate::monster::{
    blocks, collided, departures, exempt, expired, kept, leaves_for, moved_after, staging_after, waited_after,
    Monster,
};
use crate::obstacle::{ObstaclePosition, Swamp};
use crate::spawn::{starts, WaveDefinition};
use crate::simulation::{lemma_kept_from, stepped, survivors, tick_events};
use crate::types::GridPosition;

verus! {

/// A staging monster's countdown strictly decreases with each step of positive length;
/// when it reaches zero the monster walks.
pub proof fn lemma_staging_counts_down(m: Monster, dt: int)
    requires
        m.state == MonsterState::Staging,
        dt > 0,
    ensures
        staging_after(m, dt).state == MonsterState::Staging ==> 0 < staging_after(m, dt).staging_timer.remaining
            < m.staging_timer.remaining,
        staging_after(m, dt).state != MonsterState::Staging ==> staging_after(m, dt).state == MonsterState::Moving
            && staging_after(m, dt).staging_timer.remaining == 0,
{
}

/// No stage of a tick puts a monster back into staging.
pub proof fn lemma_never_back_to_staging(
    s0: Seq<Monster>,
    dt: int,
    swamps: Seq<Swamp>,
    winds: Seq<ObstaclePosition>,
    tiles: Seq<RotationTile>,
    offsets: Seq<GridPosition>,
    i: int,
)
    requires
        0 <= i < s0.len(),
        offsets.len() == s0.len(),
        s0[i].state != MonsterState::Staging,
    ensures
        stepped(s0, dt, swamps, winds, tiles, offsets).len() == s0.len(),
        stepped(s0, dt, swamps, winds, tiles, offsets)[i].state != MonsterState::Staging,
{
}

/// Once a walking monster is free again its waiting time is back to zero.
pub proof fn lemma_meter_resets(m: Monster, dt: int)
    requires
        m.state == MonsterState::Moving,
        !m.collision.is_colliding,
    ensures
        waited_after(m, dt).wait_meter.current == 0,
{
}

/// Two walking monsters, neither passing through nor pushed, each about to step into
/// the other: in that tick neither moves, and both accrue the step's time.
pub proof fn lemma_blocked_pair_stands(s: Seq<Monster>, i: int, j: int, dt: int)
    requires
        0 <= i < s.len(),
        0 <= j < s.len(),
        i != j,
        dt >= 0,
        s[i].state == MonsterState::Moving,
        s[j].state == MonsterState::Moving,
        s[i].wind_push is None,
        s[j].wind_push is None,
        !exempt(s[i], s[j]),
        blocks(s[i], s[j]),
        blocks(s[j], s[i]),
        s[i].wait_meter.current + dt <= u64::MAX,
        s[j].wait_meter.current + dt <= u64::MAX,
    ensures
        ({
            let r = collided(s).map_values(|m: Monster| moved_after(m, dt)).map_values(
                |m: Monster| waited_after(m, dt),
            );
            &&& r[i].position == s[i].position
            &&& r[j].position == s[j].position
            &&& r[i].wait_meter.current == s[i].wait_meter.current + dt
            &&& r[j].wait_meter.current == s[j].wait_meter.current + dt
        }),
{
    let c = collided(s);
    assert(c[i].collision.is_colliding);
    assert(c[j].collision.is_colliding);
}

/// A monster whose meter has reached its threshold is not among those kept, and its
/// wait-expired event is among those raised.
pub proof fn lemma_expired_leaves(s: Seq<Monster>, i: int)
    requires
        0 <= i < s.len(),
        expired(s[i]),
    ensures
        !kept(s, DespawnCause::WaitExpired).contains(s[i]),
        departures(s, DespawnCause::WaitExpired).contains(
            MonsterDespawnEvent { entity: s[i].id, cause: DespawnCause::WaitExpired },
        ),
    decreases s.len(),
{
    let c = DespawnCause::WaitExpired;
    lemma_kept_not_leaving(s, c);
    if i < s.len() - 1 {
        lemma_expired_leaves(s.drop_last(), i);
        let d = departures(s.drop_last(), c);
        let e = MonsterDespawnEvent { entity: s[i].id, cause: c };
        let k = choose|k: int| 0 <= k < d.len() && d[k] == e;
        assert(departures(s, c)[k] == e);
    } else {
        let d = departures(s, c);
        assert(d[d.len() - 1] == MonsterDespawnEvent { entity: s[i].id, cause: c });
    }
}

/// Within the tick in which its meter reaches the threshold, a monster leaves the
/// field and its wait-expired event is raised.
pub proof fn lemma_expired_leaves_in_tick(s: Seq<Monster>, i: int)
    requires
        0 <= i < s.len(),
        expired(s[i]),
    ensures
        !survivors(s).contains(s[i]),
        tick_events(s).contains(MonsterDespawnEvent { entity: s[i].id, cause: DespawnCause::WaitExpired }),
{
    let c = DespawnCause::WaitExpired;
    lemma_expired_leaves(s, i);
    let k1 = kept(s, c);
    lemma_kept_from(k1, DespawnCause::ReachedGoal);
    if survivors(s).contains(s[i]) {
        let k = choose|k: int| 0 <= k < survivors(s).len() && survivors(s)[k] == s[i];
        let a = choose|a: int|
            0 <= a < k1.len() && #[trigger] survivors(s)[k] == k1[a] && !leaves_for(k1[a], DespawnCause::ReachedGoal);
        assert(k1.contains(s[i]));
    }
    let d = departures(s, c);
    let e = MonsterDespawnEvent { entity: s[i].id, cause: c };
    let k = choose|k: int| 0 <= k < d.len() && d[k] == e;
    assert(tick_events(s)[k] == e);
}

/// A wave that starts at one advance of the schedule never starts again, whatever
/// time a later advance reaches.
pub proof fn lemma_wave_starts_once(
    waves: Seq<WaveDefinition>,
    processed: Seq<bool>,
    processed_after: Seq<bool>,
    t1: int,
    t2: int,
    i: int,
)
    requires
        0 <= i < waves.len(),
        processed.len() == waves.len(),
        processed_after.len() == waves.len(),
        forall|j: int|
            0 <= j < waves.len() ==> #[trigger] processed_after[j] == (processed[j] || waves[j].start_time <= t1),
        starts(waves, processed, t1, i),
    ensures
        !starts(waves, processed_after, t2, i),
{
}

proof fn lemma_kept_not_leaving(s: Seq<Monster>, c: DespawnCause)
    ensures
        forall|k: int| 0 <= k < kept(s, c).len() ==> !leaves_for(#[trigger] kept(s, c)[k], c),
    decreases s.len(),
{
    if s.len() > 0 {
        lemma_kept_not_leaving(s.drop_last(), c);
        let r = kept(s.drop_last(), c);
        assert forall|k: int| 0 <= k < kept(s, c).len() implies !leaves_for(#[trigger] kept(s, c)[k], c) by {
            if k < r.len() {
                assert(kept(s, c)[k] == r[k]);
            }
        }
    }
}

/// Each monster is either kept or raises exactly one event.
pub proof fn lemma_one_event_each(s: Seq<Monster>, c: DespawnCause)
    ensures
        kept(s, c).len() + departures(s, c).len() == s.len(),
    decreases s.len(),
{
    if s.len() > 0 {
        lemma_one_event_each(s.drop_last(), c);
    }
}

/// Over a whole tick, every monster on the field either stays or leaves with exactly
/// one event.
pub proof fn lemma_tick_accounts_for_all(s: Seq<Monster>)
    ensures
        survivors(s).len() + tick_events(s).len() == s.len(),
{
    lemma_one_event_each(s, DespawnCause::WaitExpired);
    lemma_one_event_each(kept(s, DespawnCause::WaitExpired), DespawnCause::ReachedGoal);
}

} // verus!
