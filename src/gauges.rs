use vstd::prelude::*;

use crate::components::{DespawnCause, MonsterDespawnEvent};

verus! {

/// Capacity of the spirit gauge.
pub const SPIRIT_MAX: u32 = 100;

/// Spirit at the start of a stage.
pub const SPIRIT_INITIAL: u32 = 50;

/// Capacity of the void gauge.
pub const VOID_MAX: u32 = 100;

/// Spirit gained for each monster that crosses the field.
pub const SPIRIT_GAIN_PER_GOAL: u32 = 10;

/// Void gained for each monster that waits too long.
pub const VOID_GAIN_PER_DESPAWN: u32 = 10;

/// Spirit spent on placing an item.
pub const ITEM_PLACEMENT_COST: u32 = 10;

/// Whether the stage is still played.
#[derive(Debug, Clone, Copy, PartialEq, Eq, Hash, Structural)]
pub enum GameState {
    InGame,
    GameOver,
}

impl Default for GameState {
    fn default() -> (r: Self)
        ensures
            r == GameState::InGame,
    {
        GameState::InGame
    }
}

pub open spec fn min(a: int, b: int) -> int {
    if a < b { a } else { b }
}

/// Ratio of `current` to `max`, in thousandths; zero for an empty capacity.
pub open spec fn ratio_of(current: int, max: int) -> int {
    if max == 0 { 0 } else { current * 1000 / max }
}

/// The spirit the player earns and spends.
#[derive(Debug, Clone, Copy, PartialEq, Eq, Structural)]
pub struct SpiritGauge {
    pub current: u32,
    pub max: u32,
}

impl SpiritGauge {
    pub fn new(max: u32, initial: u32) -> (r: Self)
        ensures
            r.max == max,
            r.current == min(initial as int, max as int),
    {
        SpiritGauge { current: if initial < max { initial } else { max }, max }
    }

    /// Adds `amount`, up to the capacity.
    pub fn add(&mut self, amount: u32)
        ensures
            final(self).max == old(self).max,
            final(self).current == min(old(self).current + amount, old(self).max as int),
    {
        let sum: u64 = self.current as u64 + amount as u64;
        self.current = if sum < self.max as u64 { sum as u32 } else { self.max };
    }

    /// Spends `amount` if that much is there; says whether it was.
    pub fn consume(&mut self, amount: u32) -> (r: bool)
        ensures
            r == (old(self).current >= amount),
            final(self).max == old(self).max,
            final(self).current == if r { old(self).current - amount } else { old(self).current as int },
    {
        if self.current >= amount {
            self.current = self.current - amount;
            true
        } else {
            false
        }
    }

    /// Filling, in thousandths.
    pub fn ratio(&self) -> (r: u64)
        ensures
            r == ratio_of(self.current as int, self.max as int),
    {
        if self.max == 0 {
            0
        } else {
            self.current as u64 * 1000 / self.max as u64
        }
    }
}

/// The void that fills as monsters are lost; full means the game is over.
#[derive(Debug, Clone, Copy, PartialEq, Eq, Structural)]
pub struct VoidGauge {
    pub current: u32,
    pub max: u32,
}

impl VoidGauge {
    pub fn new(max: u32) -> (r: Self)
        ensures
            r == (VoidGauge { current: 0, max }),
    {
        VoidGauge { current: 0, max }
    }

    /// Adds `amount`, up to the capacity.
    pub fn add(&mut self, amount: u32)
        ensures
            final(self).max == old(self).max,
            final(self).current == min(old(self).current + amount, old(self).max as int),
    {
        let sum: u64 = self.current as u64 + amount as u64;
        self.current = if sum < self.max as u64 { sum as u32 } else { self.max };
    }

    pub fn is_full(&self) -> (r: bool)
        ensures
            r == (self.current >= self.max),
    {
        self.current >= self.max
    }

    /// Filling, in thousandths.
    pub fn ratio(&self) -> (r: u64)
        ensures
            r == ratio_of(self.current as int, self.max as int),
    {
        if self.max == 0 {
            0
        } else {
            self.current as u64 * 1000 / self.max as u64
        }
    }
}

/// Both gauges of the player.
#[derive(Debug, Clone, Copy, PartialEq, Eq, Structural)]
pub struct PlayerGauges {
    pub spirit: SpiritGauge,
    pub void: VoidGauge,
}

impl Default for PlayerGauges {
    fn default() -> (r: Self)
        ensures
            r.spirit == (SpiritGauge { current: SPIRIT_INITIAL, max: SPIRIT_MAX }),
            r.void == (VoidGauge { current: 0, max: VOID_MAX }),
    {
        PlayerGauges { spirit: SpiritGauge::new(SPIRIT_MAX, SPIRIT_INITIAL), void: VoidGauge::new(VOID_MAX) }
    }
}

/// The gauges after `events`: spirit for each goal, void for each expiry, each capped.
pub open spec fn gauges_after(g: PlayerGauges, events: Seq<MonsterDespawnEvent>) -> PlayerGauges
    decreases events.len(),
{
    if events.len() == 0 {
        g
    } else {
        let p = gauges_after(g, events.drop_last());
        match events.last().cause {
            DespawnCause::ReachedGoal => PlayerGauges {
                spirit: SpiritGauge {
                    current: min(p.spirit.current + SPIRIT_GAIN_PER_GOAL, p.spirit.max as int) as u32,
                    ..p.spirit
                },
                ..p
            },
            DespawnCause::WaitExpired => PlayerGauges {
                void: VoidGauge {
                    current: min(p.void.current + VOID_GAIN_PER_DESPAWN, p.void.max as int) as u32,
                    ..p.void
                },
                ..p
            },
        }
    }
}

/// Credits each event to the player: a goal adds spirit, an expiry adds void.
pub fn update_gauges_on_monster_event_system(gauges: &mut PlayerGauges, events: &Vec<MonsterDespawnEvent>)
    ensures
        *final(gauges) == gauges_after(*old(gauges), events@),
{
    let ghost g0 = *gauges;
    let mut i: usize = 0;
    while i < events.len()
        invariant
            i <= events.len(),
            *gauges == gauges_after(g0, events@.subrange(0, i as int)),
        decreases events.len() - i,
    {
        proof {
            assert(events@.subrange(0, i + 1).drop_last() =~= events@.subrange(0, i as int));
        }
        match events[i].cause {
            DespawnCause::ReachedGoal => gauges.spirit.add(SPIRIT_GAIN_PER_GOAL),
            DespawnCause::WaitExpired => gauges.void.add(VOID_GAIN_PER_DESPAWN),
        }
        i += 1;
    }
    assert(events@.subrange(0, i as int) =~= events@);
}

/// The state the game goes on in: over once the void gauge is full.
pub fn check_game_over_system(gauges: &PlayerGauges) -> (r: GameState)
    ensures
        r == (if gauges.void.current >= gauges.void.max { GameState::GameOver } else { GameState::InGame }),
{
    if gauges.void.is_full() {
        GameState::GameOver
    } else {
        GameState::InGame
    }
}

} // verus!
