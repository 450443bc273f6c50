//! Unit production: the spawner of a building and its timer.

use vstd::prelude::*;
use crate::units::spawn_unit;
use crate::world::{Components, World, WorldState};

verus! {

/// Produces one unit every `spawn_time`.
#[derive(Clone, Copy, Debug, PartialEq, Eq, Hash, Structural)]
pub struct UnitSpawner {
    /// Microseconds between two units.
    pub spawn_time: u32,
    /// Microseconds until the next unit is due. Due at zero or below.
    pub time_left: i64,
    /// Slot of the unit's blueprint in the faction catalogue.
    pub unit_blueprint: usize,
}

impl UnitSpawner {
    /// Whether a unit is due.
    pub open spec fn due(self) -> bool {
        self.time_left <= 0
    }

    /// The spawner after a tick of `dt` microseconds. While time is left it
    /// runs down by `dt`; once none is left the spawner starts a new period.
    pub open spec fn ticked(self, dt: u32) -> UnitSpawner {
        if self.due() {
            UnitSpawner { time_left: self.spawn_time as i64, ..self }
        } else {
            UnitSpawner { time_left: (self.time_left - dt) as i64, ..self }
        }
    }

    /// The spawner after `n` ticks of `dt` microseconds each.
    pub open spec fn ticked_times(self, dt: u32, n: nat) -> UnitSpawner
        decreases n,
    {
        if n == 0 {
            self
        } else {
            self.ticked_times(dt, (n - 1) as nat).ticked(dt)
        }
    }

    /// A spawner at the start of its first period.
    pub fn new(spawn_time: u32, unit_blueprint: usize) -> (spawner: UnitSpawner)
        ensures
            spawner == (UnitSpawner { spawn_time, time_left: spawn_time as i64, unit_blueprint }),
    {
        UnitSpawner { spawn_time, time_left: spawn_time as i64, unit_blueprint }
    }

    /// One tick of `dt` microseconds. Says whether a unit is to be produced
    /// now: that is so exactly when no time was left before the tick.
    pub fn tick(&mut self, dt: u32) -> (spawn: bool)
        ensures
            spawn == old(self).due(),
            *final(self) == old(self).ticked(dt),
    {
        if self.time_left > 0 {
            self.time_left = self.time_left - dt as i64;
            false
        } else {
            self.time_left = self.spawn_time as i64;
            true
        }
    }
}

impl WorldState {
    /// The world after the spawner of the entity numbered `i` ticked. A
    /// spawner works where its entity stands somewhere and belongs to a
    /// team. While time is left it runs down. Once none is left a unit of
    /// the entity's team is spawned where the entity stands, and the next
    /// period starts.
    pub open spec fn spawned_one(self, i: int, dt: u32) -> WorldState {
        let c = self.entities[i];
        if c.unit_spawner is Some && c.position is Some && c.team is Some {
            let spawner = c.unit_spawner->0;
            let ticked = WorldState {
                entities: self.entities.update(
                    i,
                    Components { unit_spawner: Some(spawner.ticked(dt)), ..c },
                ),
                ..self
            };
            if spawner.due() {
                ticked.with_unit(c.team->0, spawner.unit_blueprint as int, c.position->0)
            } else {
                ticked
            }
        } else {
            self
        }
    }

    /// The world after the spawners of the entities numbered below `k`
    /// ticked, in order.
    pub open spec fn spawned_upto(self, k: int, dt: u32) -> WorldState
        decreases k,
    {
        if k <= 0 {
            self
        } else {
            self.spawned_upto(k - 1, dt).spawned_one(k - 1, dt)
        }
    }

    /// The world after the spawner pass: the spawners of all entities that
    /// existed before the pass tick, in the order of the entity numbers.
    pub open spec fn spawned(self, dt: u32) -> WorldState {
        self.spawned_upto(self.entities.len() as int, dt)
    }
}

impl World {
    /// The spawner pass. Every spawner runs down by `dt` microseconds, or,
    /// where it had no time left, spawns its unit and starts its next period.
    /// A unit spawned in this pass takes no part in it.
    pub fn unit_spawner_spawn_units(&mut self, dt: u32)
        requires
            old(self).wf(),
        ensures
            final(self).wf(),
            final(self)@ == old(self)@.spawned(dt),
    {
        let n = self.entities.len();
        let mut i: usize = 0;
        while i < n
            invariant
                i <= n,
                n == old(self)@.entities.len(),
                n <= self.entities@.len(),
                self.wf(),
                self@ == old(self)@.spawned_upto(i as int, dt),
            decreases n - i,
        {
            let ghost before = self@;
            let mut c = self.entities[i];
            if let (Some(mut spawner), Some(position), Some(team)) = (
                c.unit_spawner,
                c.position,
                c.team,
            ) {
                let due = spawner.tick(dt);
                c.unit_spawner = Some(spawner);
                self.entities.set(i, c);
                proof {
                    assert(self@.in_vision =~= before.in_vision);
                    assert forall|j: int| 0 <= j < before.entities.len() implies WorldState::steady(
                        #[trigger] before.entities[j],
                        self@.entities[j],
                    ) by {}
                    before.lemma_steady_step(self@);
                }
                if due {
                    let unit = spawn_unit(self, team, spawner.unit_blueprint, position.x, position.y);
                    assert(before.admits(i as int, before.entities[i as int]));
                }
            }
            assert(self@ == before.spawned_one(i as int, dt));
            i += 1;
        }
    }
}

} // verus!
