//! What a level brings into the world: castles, and the links of the
//! waypoint paths.

use vstd::prelude::*;
use crate::buildings::{Building, Castle};
use crate::entity::Entity;
use crate::geometry::Point;
use crate::health::Health;
use crate::teams::{team_named, Team};
use crate::waypoints::Waypoint;
use crate::world::{Components, World, WorldState};

verus! {

/// A castle as a level describes it.
#[derive(Clone, Copy, Debug, PartialEq, Eq, Hash, Structural)]
pub struct CastleBundle {
    pub castle: Castle,
    pub building: Building,
    pub team: Team,
    pub health: Health,
}

impl CastleBundle {
    /// Reads a castle from the values of a level entity's `team` and
    /// `health` fields. `None` where the team's name is unknown.
    pub fn from_fields(team_field: &str, health_field: i32) -> (bundle: Option<CastleBundle>)
        ensures
            bundle == match team_named(team_field@) {
                Some(team) => Some(
                    CastleBundle {
                        castle: Castle,
                        building: Building,
                        team,
                        health: Health { max_health: health_field, health: health_field },
                    },
                ),
                None => None,
            },
    {
        match Team::from_field(team_field) {
            Some(team) => Some(
                CastleBundle {
                    castle: Castle,
                    building: Building,
                    team,
                    health: Health::from_field(health_field),
                },
            ),
            None => None,
        }
    }
}

/// The link of a waypoint as a level gives it: the level's own id of the
/// next waypoint, not yet looked up.
#[derive(Debug)]
pub struct UnresolvedNextWaypointRef(pub Option<String>);

impl Default for UnresolvedNextWaypointRef {
    fn default() -> (r: UnresolvedNextWaypointRef)
        ensures
            r.0 is None,
    {
        UnresolvedNextWaypointRef(None)
    }
}

impl UnresolvedNextWaypointRef {
    /// Reads the link from the value of a level entity's `nextWaypoint`
    /// field: the level's id of the entity that the field refers to.
    pub fn from_field(next_waypoint: Option<String>) -> (r: UnresolvedNextWaypointRef)
        ensures
            r.0 == next_waypoint,
    {
        UnresolvedNextWaypointRef(next_waypoint)
    }
}

/// A waypoint's link names a level entity that the level does not have.
#[derive(Debug)]
pub struct MissingWaypoint {
    /// The level's id that was looked for.
    pub iid: String,
}

/// The first entity from position `from` on in `level_entities` that the
/// level calls `iid`.
pub open spec fn entity_with_iid(level_entities: Seq<(Entity, String)>, iid: Seq<char>, from: int) -> Option<
    Entity,
>
    decreases level_entities.len() - from,
{
    if from < 0 || from >= level_entities.len() {
        None
    } else if level_entities[from].1@ == iid {
        Some(level_entities[from].0)
    } else {
        entity_with_iid(level_entities, iid, from + 1)
    }
}

/// The waypoint that a link resolves to. A link without an id gives a
/// waypoint at which the path ends.
pub open spec fn resolved_waypoint(
    reference: UnresolvedNextWaypointRef,
    level_entities: Seq<(Entity, String)>,
) -> Option<Waypoint> {
    match reference.0 {
        Some(iid) => match entity_with_iid(level_entities, iid@, 0) {
            Some(next) => Some(Waypoint { next_waypoint: Some(next) }),
            None => None,
        },
        None => Some(Waypoint { next_waypoint: None }),
    }
}

/// Looks up the level entity that a waypoint's link names, among the level's
/// entities with their ids. Fails exactly where the link names an id that no
/// entity has; the error carries that id.
pub fn resolve_next_waypoint(
    reference: &UnresolvedNextWaypointRef,
    level_entities: &Vec<(Entity, String)>,
) -> (r: Result<Waypoint, MissingWaypoint>)
    ensures
        match resolved_waypoint(*reference, level_entities@) {
            Some(waypoint) => r == Ok::<Waypoint, MissingWaypoint>(waypoint),
            None => r matches Err(missing) && reference.0 matches Some(iid) && missing.iid@
                == iid@,
        },
{
    match &reference.0 {
        Some(iid) => {
            let mut k: usize = 0;
            while k < level_entities.len()
                invariant
                    k <= level_entities@.len(),
                    reference.0 == Some(*iid),
                    entity_with_iid(level_entities@, iid@, 0) == entity_with_iid(
                        level_entities@,
                        iid@,
                        k as int,
                    ),
                decreases level_entities@.len() - k,
            {
                if level_entities[k].1 == *iid {
                    return Ok(Waypoint { next_waypoint: Some(level_entities[k].0) });
                }
                k += 1;
            }
            Err(MissingWaypoint { iid: iid.clone() })
        },
        None => Ok(Waypoint { next_waypoint: None }),
    }
}

impl WorldState {
    /// The components of a castle at `position`.
    pub open spec fn castle_components(bundle: CastleBundle, position: Point) -> Components {
        Components {
            castle: true,
            building: true,
            team: Some(bundle.team),
            health: Some(bundle.health),
            position: Some(position),
            ..Components::bare()
        }
    }

    /// The components of the collider that is attached to `castle`.
    pub open spec fn collider_components(castle: Entity) -> Components {
        Components { parent: Some(castle), ..Components::bare() }
    }

    /// The world with two more entities: a castle at `position` and the
    /// collider attached to it.
    pub open spec fn with_castle(self, bundle: CastleBundle, position: Point) -> WorldState {
        WorldState {
            entities: self.entities.push(WorldState::castle_components(bundle, position)).push(
                WorldState::collider_components(Entity(self.entities.len() as u64)),
            ),
            in_vision: self.in_vision.push(None).push(None),
            ..self
        }
    }

    /// The world after `entity` was given the link `waypoint`. Only a living
    /// entity takes a link.
    pub open spec fn linked(self, entity: Entity, waypoint: Waypoint) -> WorldState {
        if self.alive(entity) {
            WorldState {
                entities: self.entities.update(
                    entity.index(),
                    Components { waypoint: Some(waypoint), ..self.entities[entity.index()] },
                ),
                ..self
            }
        } else {
            self
        }
    }
}

impl World {
    /// Brings a castle of a level into the world at `(x, y)`, with the
    /// collider that is attached to it. Returns the castle and the collider.
    pub fn process_castle(&mut self, bundle: CastleBundle, x: i32, y: i32) -> (r: (Entity, Entity))
        requires
            old(self).wf(),
        ensures
            final(self).wf(),
            r.0.index() == old(self)@.len(),
            r.1.index() == old(self)@.len() + 1,
            final(self)@ == old(self)@.with_castle(bundle, Point { x, y }),
    {
        let mut c = Components::new();
        c.castle = true;
        c.building = true;
        c.team = Some(bundle.team);
        c.health = Some(bundle.health);
        c.position = Some(Point { x, y });
        let castle = Entity(self.entities.len() as u64);
        let spawned = self.spawn(c, None);
        let mut attached = Components::new();
        attached.parent = Some(castle);
        let collider = Entity(self.entities.len() as u64);
        let spawned_collider = self.spawn(attached, None);
        (castle, collider)
    }

    /// Gives the waypoint `entity` the link that the level describes for it.
    /// Fails, and changes nothing, exactly where the link names a level
    /// entity that the level does not have. A link for an entity that does
    /// not exist is looked up and dropped.
    pub fn resolve_next_waypoint_references(
        &mut self,
        entity: Entity,
        reference: &UnresolvedNextWaypointRef,
        level_entities: &Vec<(Entity, String)>,
    ) -> (r: Result<(), MissingWaypoint>)
        requires
            old(self).wf(),
        ensures
            final(self).wf(),
            match resolved_waypoint(*reference, level_entities@) {
                Some(waypoint) => r is Ok && final(self)@ == old(self)@.linked(entity, waypoint),
                None => r matches Err(missing) && reference.0 matches Some(iid) && missing.iid@
                    == iid@ && final(self)@ == old(self)@,
            },
    {
        match resolve_next_waypoint(reference, level_entities) {
            Ok(waypoint) => {
                let mut c = self.components(entity);
                if c.alive {
                    proof {
                        assert(self@.admits(entity.index(), self@.entities[entity.index()]));
                    }
                    c.waypoint = Some(waypoint);
                    let done = self.update(entity, c);
                }
                Ok(())
            },
            Err(missing) => Err(missing),
        }
    }
}

} // verus!
