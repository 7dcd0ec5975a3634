use vstd::prelude::*;

use crate::definitions::MonsterKind;
use crate::types::{Color, Direction};

verus! {

/// How long a new monster waits at the edge before it walks, in ms.
pub const STAGING_DURATION: u32 = 1_000;

/// Wait threshold of a meter made without one, in ms.
pub const WAIT_THRESHOLD: u32 = 10_000;

/// Lifecycle of a monster.
#[derive(Debug, Clone, Copy, PartialEq, Eq, Structural)]
pub enum MonsterState {
    /// Waiting at the edge of the field.
    Staging,
    /// Walking.
    Moving,
    /// Past the far edge; removed at the end of the tick.
    Reached,
}

/// The parameters a monster was spawned with; effects never change them.
#[derive(Debug, Clone, Copy, PartialEq, Eq, Structural)]
pub struct MonsterProperty {
    pub kind: MonsterKind,
    pub base_direction: Direction,
    /// In milli-pixels per second.
    pub base_speed: u32,
    /// In thousandths of a grid cell.
    pub base_size: u32,
    pub base_color: Color,
}

impl MonsterProperty {
    pub fn new(kind: MonsterKind, direction: Direction, speed: u32, size: u32, color: Color) -> (r: Self)
        ensures
            r == (MonsterProperty {
                kind,
                base_direction: direction,
                base_speed: speed,
                base_size: size,
                base_color: color,
            }),
    {
        MonsterProperty { kind, base_direction: direction, base_speed: speed, base_size: size, base_color: color }
    }
}

/// The movement actually used this tick, after every effect.
#[derive(Debug, Clone, Copy, PartialEq, Eq, Structural)]
pub struct Movement {
    pub direction: Direction,
    /// In milli-pixels per second.
    pub speed: u32,
    /// False while a push or a pause holds the monster.
    pub enabled: bool,
}

impl Movement {
    pub fn new(direction: Direction, speed: u32) -> (r: Self)
        ensures
            r == (Movement { direction, speed, enabled: true }),
    {
        Movement { direction, speed, enabled: true }
    }
}

/// Countdown of the staging phase.
#[derive(Debug, Clone, Copy, PartialEq, Eq, Structural)]
pub struct StagingTimer {
    /// In ms; zero once the countdown has run out.
    pub remaining: u64,
}

impl StagingTimer {
    pub fn new(duration: u32) -> (r: Self)
        ensures
            r.remaining == duration,
    {
        StagingTimer { remaining: duration as u64 }
    }
}

/// Axis-aligned box of a monster, centred on its position, in milli-pixels.
#[derive(Debug, Clone, Copy, PartialEq, Eq, Structural)]
pub struct CollisionBox {
    pub width: i64,
    pub height: i64,
}

impl CollisionBox {
    pub fn new(width: i64, height: i64) -> (r: Self)
        ensures
            r == (CollisionBox { width, height }),
    {
        CollisionBox { width, height }
    }
}

/// Whether the monster is blocked this tick.
#[derive(Debug, Clone, Copy, PartialEq, Eq, Structural)]
pub struct CollisionState {
    pub is_colliding: bool,
}

impl CollisionState {
    pub fn new() -> (r: Self)
        ensures
            !r.is_colliding,
    {
        CollisionState { is_colliding: false }
    }
}

/// Time a monster has stood blocked, against the time it may stand.
#[derive(Debug, Clone, Copy, PartialEq, Eq, Structural)]
pub struct WaitMeter {
    /// In ms.
    pub current: u64,
    /// In ms.
    pub threshold: u32,
    /// Whether the monster was blocked at the last update.
    pub was_stopped: bool,
}

/// Progress of a wait meter, in thousandths, capped at a thousand.
pub open spec fn progress_of(current: int, threshold: int) -> int {
    if current >= threshold {
        1000
    } else {
        current * 1000 / threshold
    }
}

/// Brightness of a monster whose wait meter stands at `progress` thousandths: it falls
/// linearly to three tenths.
pub open spec fn brightness_of(progress: int) -> int {
    1000 - progress * 7 / 10
}

pub open spec fn meter_after(m: WaitMeter, blocked: bool, dt: int) -> WaitMeter {
    WaitMeter {
        current: if blocked { (m.current + dt) as u64 } else { 0 },
        was_stopped: blocked,
        ..m
    }
}

impl WaitMeter {
    pub fn new(threshold: u32) -> (r: Self)
        ensures
            r == (WaitMeter { current: 0, threshold, was_stopped: false }),
    {
        WaitMeter { current: 0, threshold, was_stopped: false }
    }

    /// How far the meter is towards its threshold, in thousandths, at most a thousand.
    pub fn progress_ratio(&self) -> (r: u32)
        ensures
            r == progress_of(self.current as int, self.threshold as int),
            r <= 1000,
    {
        if self.current >= self.threshold as u64 {
            1000
        } else {
            let q = self.current * 1000 / (self.threshold as u64);
            assert(q <= 1000) by (nonlinear_arith)
                requires
                    self.current < self.threshold,
                    q == self.current * 1000 / (self.threshold as int),
            {
            }
            q as u32
        }
    }

    /// Whether the monster has stood blocked for its whole threshold.
    pub fn is_expired(&self) -> (r: bool)
        ensures
            r == (self.current >= self.threshold),
    {
        self.current >= self.threshold as u64
    }

    /// Brightness of the monster's sprite, in thousandths: from a thousand for an empty
    /// meter down to three hundred for a full one.
    pub fn brightness(&self) -> (r: u32)
        ensures
            r == brightness_of(progress_of(self.current as int, self.threshold as int)),
            300 <= r <= 1000,
    {
        let p = self.progress_ratio();
        1000 - p * 7 / 10
    }

    /// One update: a blocked monster accrues `dt` ms, a free one starts again from zero.
    pub fn update(&mut self, blocked: bool, dt: u32)
        requires
            old(self).current + dt <= u64::MAX,
        ensures
            *final(self) == meter_after(*old(self), blocked, dt as int),
    {
        if blocked {
            self.current = self.current + dt as u64;
        } else {
            self.current = 0;
        }
        self.was_stopped = blocked;
    }
}

impl Default for WaitMeter {
    fn default() -> (r: Self)
        ensures
            r == (WaitMeter { current: 0, threshold: WAIT_THRESHOLD, was_stopped: false }),
    {
        WaitMeter::new(WAIT_THRESHOLD)
    }
}

/// Clock of the stop-now-and-then behaviour.
#[derive(Debug, Clone, Copy, PartialEq, Eq, Structural)]
pub struct MyPaceTimer {
    /// Walking time between two stops, in ms.
    pub stop_interval: u32,
    /// Length of a stop, in ms.
    pub stop_duration: u32,
    /// Walking time since the last stop, in ms.
    pub interval_elapsed: u32,
    /// Time spent in the current stop, in ms.
    pub stop_elapsed: u32,
    pub is_stopped: bool,
}

/// Whether the elapsed times lie within their periods.
pub open spec fn pace_wf(t: MyPaceTimer) -> bool {
    t.interval_elapsed <= t.stop_interval && t.stop_elapsed <= t.stop_duration
}

/// The clock after `dt` ms, and whether the monster may walk afterwards; `enabled` is
/// kept where the clock does not change it.
pub open spec fn pace_after(t: MyPaceTimer, enabled: bool, dt: int) -> (MyPaceTimer, bool) {
    if t.is_stopped {
        let e = t.stop_elapsed + dt;
        if e >= t.stop_duration {
            (MyPaceTimer { stop_elapsed: t.stop_duration, is_stopped: false, ..t }, true)
        } else {
            (MyPaceTimer { stop_elapsed: e as u32, ..t }, enabled)
        }
    } else {
        let e = t.interval_elapsed + dt;
        if e >= t.stop_interval {
            let rest = if t.stop_interval == 0 { 0 } else { e % (t.stop_interval as int) };
            (MyPaceTimer { interval_elapsed: rest as u32, stop_elapsed: 0, is_stopped: true, ..t }, false)
        } else {
            (MyPaceTimer { interval_elapsed: e as u32, ..t }, enabled)
        }
    }
}

impl MyPaceTimer {
    pub fn new(interval: u32, duration: u32) -> (r: Self)
        ensures
            r == (MyPaceTimer {
                stop_interval: interval,
                stop_duration: duration,
                interval_elapsed: 0,
                stop_elapsed: 0,
                is_stopped: false,
            }),
            pace_wf(r),
    {
        MyPaceTimer {
            stop_interval: interval,
            stop_duration: duration,
            interval_elapsed: 0,
            stop_elapsed: 0,
            is_stopped: false,
        }
    }

    /// Advances the clock by `dt` ms and returns whether the monster may walk: a stop
    /// begins when a walking interval is complete and ends when its duration is.
    pub fn tick(&mut self, enabled: bool, dt: u32) -> (r: bool)
        requires
            pace_wf(*old(self)),
        ensures
            (*final(self), r) == pace_after(*old(self), enabled, dt as int),
            pace_wf(*final(self)),
    {
        if self.is_stopped {
            let e: u64 = self.stop_elapsed as u64 + dt as u64;
            if e >= self.stop_duration as u64 {
                self.stop_elapsed = self.stop_duration;
                self.is_stopped = false;
                true
            } else {
                self.stop_elapsed = e as u32;
                enabled
            }
        } else {
            let e: u64 = self.interval_elapsed as u64 + dt as u64;
            if e >= self.stop_interval as u64 {
                let rest: u64 = if self.stop_interval == 0 { 0 } else { e % (self.stop_interval as u64) };
                self.interval_elapsed = rest as u32;
                self.stop_elapsed = 0;
                self.is_stopped = true;
                false
            } else {
                self.interval_elapsed = e as u32;
                enabled
            }
        }
    }
}

/// Why a monster left the field.
#[derive(Debug, Clone, Copy, PartialEq, Eq, Structural)]
pub enum DespawnCause {
    /// It crossed the far edge.
    ReachedGoal,
    /// It stood blocked for its whole wait threshold.
    WaitExpired,
}

/// Raised once for each monster that leaves the field.
#[derive(Debug, Clone, Copy, PartialEq, Eq, Structural)]
pub struct MonsterDespawnEvent {
    /// Identity of the monster.
    pub entity: u64,
    pub cause: DespawnCause,
}

} // verus!
