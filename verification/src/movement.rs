//! Movement: what an entity walks towards, and how far it gets in a tick.

use vstd::prelude::*;
use crate::attack::AttackTarget;
use crate::entity::Entity;
use crate::geometry::{dist2, step_towards, stepped, travel, travel_distance, Point};
use crate::waypoints::Waypoint;
use crate::world::{Components, World, WorldState};

verus! {

/// Distance below which a walker counts as having reached its waypoint:
/// 64 world units, in sub-units.
pub const ARRIVAL_RADIUS: u32 = 64_000;

/// Walking speed in sub-units per second.
#[derive(Clone, Copy, Debug, PartialEq, Eq, Hash, Structural)]
pub struct MovementSpeed(pub u32);

/// Marks an entity that leaves its path to chase its attack target.
#[derive(Clone, Copy, Debug, PartialEq, Eq, Hash, Structural)]
pub struct OpponentFollower;

/// The waypoint that a walker on a path is heading for.
#[derive(Clone, Copy, Debug, PartialEq, Eq, Hash, Structural)]
pub struct WaypointFollower {
    pub waypoint: Entity,
}

/// The entity that a walker walks towards this tick.
#[derive(Clone, Copy, Debug, PartialEq, Eq, Hash, Structural)]
pub struct MoveTarget(pub Entity);

/// A command to walk towards a point. It lasts one tick.
#[derive(Clone, Copy, Debug, PartialEq, Eq, Hash, Structural)]
pub struct MoveToPoint(pub Point);

/// A waypoint as a walker sees it: where it stands and where the path goes on.
#[derive(Clone, Copy, Debug, PartialEq, Eq, Hash, Structural)]
pub struct WaypointSight {
    pub position: Point,
    pub waypoint: Waypoint,
}

/// Move target of an opponent follower that holds an attack target: the
/// target's entity, whatever the move target was before.
pub open spec fn attack_synced(attack_target: AttackTarget) -> MoveTarget {
    MoveTarget(attack_target.0)
}

/// Whether a walker at `position` has arrived at a waypoint at `waypoint`.
pub open spec fn arrived(position: Point, waypoint: Point) -> bool {
    dist2(position, waypoint) < ARRIVAL_RADIUS * ARRIVAL_RADIUS
}

/// Waypoint following of one walker without an attack target. `sight` is
/// what the walker's move target resolves to as a waypoint, `None` where it
/// does not.
///
/// Without a move target the walker takes its current waypoint as one. With
/// its current waypoint as move target, and arrived there, it goes on to the
/// next waypoint, or, where the path ends, stops following and walking.
/// In every other case nothing changes.
pub open spec fn waypoint_synced(
    position: Point,
    follower: WaypointFollower,
    move_target: Option<MoveTarget>,
    sight: Option<WaypointSight>,
) -> (Option<WaypointFollower>, Option<MoveTarget>) {
    match move_target {
        None => (Some(follower), Some(MoveTarget(follower.waypoint))),
        Some(target) => if target.0 == follower.waypoint && sight is Some && arrived(
            position,
            sight->0.position,
        ) {
            match sight->0.waypoint.next_waypoint {
                Some(next) => (Some(WaypointFollower { waypoint: next }), Some(MoveTarget(next))),
                None => (None, None),
            }
        } else {
            (Some(follower), Some(target))
        },
    }
}

/// What seeking a move target leaves: the target and a walk command to where
/// it stands, or, where the target does not resolve to a position, no target
/// and the walk command that there was.
pub open spec fn sought(
    target: MoveTarget,
    target_position: Option<Point>,
    command: Option<MoveToPoint>,
) -> (Option<MoveTarget>, Option<MoveToPoint>) {
    match target_position {
        Some(point) => (Some(target), Some(MoveToPoint(point))),
        None => (None, command),
    }
}

/// Where a walker stands after obeying a walk command for `dt` microseconds:
/// `speed * dt` along the straight line to the point, and never beyond it.
pub open spec fn walked(position: Point, command: MoveToPoint, speed: MovementSpeed, dt: u32) -> Point {
    stepped(position, command.0, travel(speed.0 as int, dt as int))
}

/// Move target of an opponent follower that holds an attack target.
pub fn sync_attack(attack_target: AttackTarget) -> (target: MoveTarget)
    ensures
        target == attack_synced(attack_target),
{
    MoveTarget(attack_target.0)
}

/// Waypoint following of one walker without an attack target.
pub fn sync_waypoint(
    position: Point,
    follower: WaypointFollower,
    move_target: Option<MoveTarget>,
    sight: Option<WaypointSight>,
) -> (r: (Option<WaypointFollower>, Option<MoveTarget>))
    ensures
        r == waypoint_synced(position, follower, move_target, sight),
{
    match move_target {
        None => (Some(follower), Some(MoveTarget(follower.waypoint))),
        Some(target) => {
            if target.0 == follower.waypoint {
                if let Some(seen) = sight {
                    if position.closer_than(seen.position, ARRIVAL_RADIUS) {
                        return match seen.waypoint.next_waypoint {
                            Some(next) => (
                                Some(WaypointFollower { waypoint: next }),
                                Some(MoveTarget(next)),
                            ),
                            None => (None, None),
                        };
                    }
                }
            }
            (Some(follower), Some(target))
        },
    }
}

/// Seeks a move target: a walk command to where it stands, or the loss of the
/// target where it stands nowhere.
pub fn seek(target: MoveTarget, target_position: Option<Point>, command: Option<MoveToPoint>) -> (r:
    (Option<MoveTarget>, Option<MoveToPoint>))
    ensures
        r == sought(target, target_position, command),
{
    match target_position {
        Some(point) => (Some(target), Some(MoveToPoint(point))),
        None => (None, command),
    }
}

/// Obeys a walk command for `dt` microseconds.
pub fn walk(position: Point, command: MoveToPoint, speed: MovementSpeed, dt: u32) -> (r: Point)
    ensures
        r == walked(position, command, speed, dt),
{
    step_towards(position, command.0, travel_distance(speed.0, dt))
}

impl WorldState {
    /// The entity numbered `i` after the attack phase of movement: an
    /// opponent follower with an attack target walks towards that target.
    pub open spec fn attack_synced_one(self, i: int) -> Components {
        let c = self.entities[i];
        if c.opponent_follower && c.attack_target is Some {
            Components { move_target: Some(attack_synced(c.attack_target->0)), ..c }
        } else {
            c
        }
    }

    /// The world after the attack phase of movement.
    pub open spec fn attack_synced(self) -> WorldState {
        WorldState {
            entities: Seq::new(self.entities.len(), |i: int| self.attack_synced_one(i)),
            ..self
        }
    }

    /// What `entity` resolves to as a waypoint: its position and its link.
    pub open spec fn waypoint_sight(self, entity: Entity) -> Option<WaypointSight> {
        let c = self.components(entity);
        if c.position is Some && c.waypoint is Some {
            Some(WaypointSight { position: c.position->0, waypoint: c.waypoint->0 })
        } else {
            None
        }
    }

    /// The entity numbered `i` after the waypoint phase of movement. The
    /// phase concerns an entity that stands somewhere, follows a path and has
    /// no attack target.
    pub open spec fn waypoint_synced_one(self, i: int) -> Components {
        let c = self.entities[i];
        if c.attack_target is None && c.waypoint_follower is Some && c.position is Some {
            let sight = match c.move_target {
                Some(target) => self.waypoint_sight(target.0),
                None => None,
            };
            let next = waypoint_synced(c.position->0, c.waypoint_follower->0, c.move_target, sight);
            Components { waypoint_follower: next.0, move_target: next.1, ..c }
        } else {
            c
        }
    }

    /// The world after the waypoint phase of movement.
    pub open spec fn waypoint_synced(self) -> WorldState {
        WorldState {
            entities: Seq::new(self.entities.len(), |i: int| self.waypoint_synced_one(i)),
            ..self
        }
    }

    /// The entity numbered `i` after the seek phase of movement.
    pub open spec fn sought_one(self, i: int) -> Components {
        let c = self.entities[i];
        match c.move_target {
            Some(target) => {
                let next = sought(target, self.components(target.0).position, c.move_to_point);
                Components { move_target: next.0, move_to_point: next.1, ..c }
            },
            None => c,
        }
    }

    /// The world after the seek phase of movement.
    pub open spec fn sought(self) -> WorldState {
        WorldState {
            entities: Seq::new(self.entities.len(), |i: int| self.sought_one(i)),
            ..self
        }
    }

    /// The entity numbered `i` after walking for `dt` microseconds. An
    /// entity walks where it stands somewhere, has a speed and holds a walk
    /// command; the command is used up.
    pub open spec fn walked_one(self, i: int, dt: u32) -> Components {
        let c = self.entities[i];
        if c.position is Some && c.move_to_point is Some && c.movement_speed is Some {
            Components {
                position: Some(walked(c.position->0, c.move_to_point->0, c.movement_speed->0, dt)),
                move_to_point: None,
                ..c
            }
        } else {
            c
        }
    }

    /// The world after the walk phase of movement.
    pub open spec fn walked(self, dt: u32) -> WorldState {
        WorldState {
            entities: Seq::new(self.entities.len(), |i: int| self.walked_one(i, dt)),
            ..self
        }
    }
}

impl World {
    /// The attack phase of movement: every opponent follower that holds an
    /// attack target gets that target's entity as its move target.
    pub fn sync_attack_move_target(&mut self)
        requires
            old(self).wf(),
        ensures
            final(self).wf(),
            final(self)@ == old(self)@.attack_synced(),
    {
        let n = self.entities.len();
        let mut i: usize = 0;
        while i < n
            invariant
                i <= n,
                n == old(self).entities@.len(),
                self.entities@.len() == n,
                self.same_but_entities(old(self)),
                forall|j: int| 0 <= j < i ==> self.entities@[j] == old(self)@.attack_synced_one(j),
                forall|j: int| i <= j < n ==> self.entities@[j] == old(self).entities@[j],
            decreases n - i,
        {
            let mut c = self.entities[i];
            if c.opponent_follower {
                if let Some(target) = c.attack_target {
                    c.move_target = Some(sync_attack(target));
                    self.entities.set(i, c);
                }
            }
            i += 1;
        }
        proof {
            assert(self@.entities =~= old(self)@.attack_synced().entities);
            old(self)@.lemma_steady_step(self@);
        }
    }

    /// What `entity` resolves to as a waypoint.
    pub fn waypoint_sight(&self, entity: Entity) -> (sight: Option<WaypointSight>)
        ensures
            sight == self@.waypoint_sight(entity),
    {
        let c = self.components(entity);
        match (c.position, c.waypoint) {
            (Some(position), Some(waypoint)) => Some(WaypointSight { position, waypoint }),
            _ => None,
        }
    }

    /// The waypoint phase of movement, for every entity that follows a path
    /// and has no attack target: take the current waypoint as move target,
    /// or, arrived there, go on to the next, or, at the end of the path, stop.
    pub fn sync_waypoint_move_target(&mut self)
        requires
            old(self).wf(),
        ensures
            final(self).wf(),
            final(self)@ == old(self)@.waypoint_synced(),
    {
        let n = self.entities.len();
        let mut i: usize = 0;
        while i < n
            invariant
                i <= n,
                n == old(self).entities@.len(),
                self.entities@.len() == n,
                self.same_but_entities(old(self)),
                forall|j: int|
                    0 <= j < i ==> self.entities@[j] == old(self)@.waypoint_synced_one(j),
                forall|j: int| i <= j < n ==> self.entities@[j] == old(self).entities@[j],
                forall|j: int|
                    0 <= j < n ==> (#[trigger] self.entities@[j]).position == old(
                        self,
                    ).entities@[j].position && self.entities@[j].waypoint == old(
                        self,
                    ).entities@[j].waypoint,
            decreases n - i,
        {
            let mut c = self.entities[i];
            if c.attack_target.is_none() {
                if let (Some(follower), Some(position)) = (c.waypoint_follower, c.position) {
                    let sight = match c.move_target {
                        Some(target) => self.waypoint_sight(target.0),
                        None => None,
                    };
                    assert(c.move_target matches Some(target) ==> sight == old(
                        self,
                    )@.waypoint_sight(target.0));
                    let next = sync_waypoint(position, follower, c.move_target, sight);
                    c.waypoint_follower = next.0;
                    c.move_target = next.1;
                    self.entities.set(i, c);
                }
            }
            i += 1;
        }
        proof {
            assert(self@.entities =~= old(self)@.waypoint_synced().entities);
            old(self)@.lemma_steady_step(self@);
        }
    }

    /// The seek phase of movement: every entity with a move target gets a
    /// walk command to where the target stands, or loses the target where it
    /// stands nowhere.
    pub fn move_towards_target(&mut self)
        requires
            old(self).wf(),
        ensures
            final(self).wf(),
            final(self)@ == old(self)@.sought(),
    {
        let n = self.entities.len();
        let mut i: usize = 0;
        while i < n
            invariant
                i <= n,
                n == old(self).entities@.len(),
                self.entities@.len() == n,
                self.same_but_entities(old(self)),
                forall|j: int| 0 <= j < i ==> self.entities@[j] == old(self)@.sought_one(j),
                forall|j: int| i <= j < n ==> self.entities@[j] == old(self).entities@[j],
                forall|j: int|
                    0 <= j < n ==> (#[trigger] self.entities@[j]).position == old(
                        self,
                    ).entities@[j].position,
            decreases n - i,
        {
            let mut c = self.entities[i];
            if let Some(target) = c.move_target {
                let target_position = self.components(target.0).position;
                assert(target_position == old(self)@.components(target.0).position);
                let next = seek(target, target_position, c.move_to_point);
                c.move_target = next.0;
                c.move_to_point = next.1;
                self.entities.set(i, c);
            }
            i += 1;
        }
        proof {
            assert(self@.entities =~= old(self)@.sought().entities);
            old(self)@.lemma_steady_step(self@);
        }
    }

    /// The walk phase of movement: every entity that can walk obeys its walk
    /// command for `dt` microseconds, and the command is used up.
    pub fn move_towards_point(&mut self, dt: u32)
        requires
            old(self).wf(),
        ensures
            final(self).wf(),
            final(self)@ == old(self)@.walked(dt),
    {
        let n = self.entities.len();
        let mut i: usize = 0;
        while i < n
            invariant
                i <= n,
                n == old(self).entities@.len(),
                self.entities@.len() == n,
                self.same_but_entities(old(self)),
                forall|j: int| 0 <= j < i ==> self.entities@[j] == old(self)@.walked_one(j, dt),
                forall|j: int| i <= j < n ==> self.entities@[j] == old(self).entities@[j],
            decreases n - i,
        {
            let mut c = self.entities[i];
            if let (Some(position), Some(command), Some(speed)) = (
                c.position,
                c.move_to_point,
                c.movement_speed,
            ) {
                c.position = Some(walk(position, command, speed, dt));
                c.move_to_point = None;
                self.entities.set(i, c);
            }
            i += 1;
        }
        proof {
            assert(self@.entities =~= old(self)@.walked(dt).entities);
            old(self)@.lemma_steady_step(self@);
        }
    }
}

} // verus!
