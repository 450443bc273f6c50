//! One tick of the match: every system once, in a fixed order.

use vstd::prelude::*;
use crate::entity::Entity;
use crate::world::{World, WorldState};

verus! {

/// Whether simulated time passes.
#[derive(Clone, Copy, Debug, PartialEq, Eq, Hash, Structural)]
pub enum SimulationState {
    Running,
    Paused,
}

impl Default for SimulationState {
    fn default() -> (s: SimulationState)
        ensures
            s == SimulationState::Running,
    {
        SimulationState::Running
    }
}

impl WorldState {
    /// The world after the perception clock went on by `dt` microseconds,
    /// with the perception pass where one fell due.
    pub open spec fn perception_ticked(self, dt: u32) -> WorldState {
        let clocked = WorldState { clock: self.clock.advanced(dt), ..self };
        if self.clock.due(dt) {
            clocked.watched()
        } else {
            clocked
        }
    }

    /// The world after one tick of `dt` microseconds: perception where it
    /// is due, targeting, the four phases of movement, combat, lifecycle and
    /// spawners, in this order.
    pub open spec fn ticked(self, dt: u32) -> WorldState {
        self.perception_ticked(dt).targeted().attack_synced().waypoint_synced().sought().walked(
            dt,
        ).fought(dt).buried().spawned(dt)
    }

    /// The entities that die in a tick of `dt` microseconds.
    pub open spec fn tick_casualties(self, dt: u32) -> Seq<Entity> {
        self.perception_ticked(dt).targeted().attack_synced().waypoint_synced().sought().walked(
            dt,
        ).fought(dt).casualties()
    }

    /// The world after a frame: a tick while the simulation runs, and nothing
    /// while it is paused.
    pub open spec fn stepped(self, state: SimulationState, dt: u32) -> WorldState {
        match state {
            SimulationState::Running => self.ticked(dt),
            SimulationState::Paused => self,
        }
    }
}

impl World {
    /// Advances the perception clock by `dt` microseconds and runs the
    /// perception pass where one is due.
    pub fn tick_perception(&mut self, dt: u32)
        requires
            old(self).wf(),
        ensures
            final(self).wf(),
            final(self)@ == old(self)@.perception_ticked(dt),
    {
        let due = self.clock.tick(dt);
        proof {
            assert(self@.in_vision =~= old(self)@.in_vision);
            assert forall|j: int| 0 <= j < self@.entities.len() implies WorldState::steady(
                #[trigger] old(self)@.entities[j],
                self@.entities[j],
            ) by {}
            old(self)@.lemma_steady_step(self@);
        }
        if due {
            self.check_vision();
        }
    }

    /// One tick of `dt` microseconds: every system once, in order. Returns
    /// the entities that died.
    pub fn tick(&mut self, dt: u32) -> (dead: Vec<Entity>)
        requires
            old(self).wf(),
        ensures
            final(self).wf(),
            final(self)@ == old(self)@.ticked(dt),
            dead@ == old(self)@.tick_casualties(dt),
    {
        self.tick_perception(dt);
        self.find_attack_target();
        self.sync_attack_move_target();
        self.sync_waypoint_move_target();
        self.move_towards_target();
        self.move_towards_point(dt);
        self.attack_target(dt);
        let dead = self.check_death();
        self.unit_spawner_spawn_units(dt);
        dead
    }

    /// One frame: a tick while the simulation runs, and nothing while it is
    /// paused. Returns the entities that died.
    pub fn step(&mut self, state: SimulationState, dt: u32) -> (dead: Vec<Entity>)
        requires
            old(self).wf(),
        ensures
            final(self).wf(),
            final(self)@ == old(self)@.stepped(state, dt),
            state == SimulationState::Running ==> dead@ == old(self)@.tick_casualties(dt),
            state == SimulationState::Paused ==> dead@.len() == 0,
    {
        match state {
            SimulationState::Running => self.tick(dt),
            SimulationState::Paused => Vec::new(),
        }
    }
}

} // verus!
