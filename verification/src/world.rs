//! The world: every entity with its components, and the state that the
//! systems share.
//!
//! [`WorldState`] is the mathematical model. Each system is a function from
//! one state to the next, and [`World`] is the storage that implements them.

use vstd::prelude::*;
use crate::attack::{AttackStats, AttackTarget};
use crate::buildings::BuildingGhost;
use crate::entity::Entity;
use crate::geometry::Point;
use crate::health::Health;
use crate::movement::{MoveTarget, MoveToPoint, MovementSpeed, WaypointFollower};
use crate::resources::PlayerSettings;
use crate::teams::Team;
use crate::unit_spawning::UnitSpawner;
use crate::vision::{InVision, Perceived, PerceptionClock, VisionRange, PERCEPTION_PERIOD};
use crate::waypoints::{StartPoints, Waypoint, WaypointMap};

verus! {

/// The components of one entity, but for what it perceives. A marker
/// component is a flag, any other is present or absent.
#[derive(Clone, Copy, Debug, PartialEq, Eq, Structural)]
pub struct Components {
    /// Whether the entity exists. A destroyed entity has no component.
    pub alive: bool,
    /// The entity that this one is attached to. Destroying a parent destroys
    /// what is attached to it.
    pub parent: Option<Entity>,
    /// Whether the entity carries a vision sensor.
    pub sensor: bool,
    pub unit: bool,
    pub building: bool,
    pub castle: bool,
    /// Slot of the blueprint that the entity was made from, in the faction's
    /// list of unit blueprints for a unit and of building blueprints for a
    /// building.
    pub blueprint: Option<usize>,
    pub team: Option<Team>,
    pub position: Option<Point>,
    pub health: Option<Health>,
    pub vision_range: Option<VisionRange>,
    pub visible: bool,
    pub attack_stats: Option<AttackStats>,
    pub attack_target: Option<AttackTarget>,
    pub movement_speed: Option<MovementSpeed>,
    pub opponent_follower: bool,
    pub waypoint_follower: Option<WaypointFollower>,
    pub move_target: Option<MoveTarget>,
    pub move_to_point: Option<MoveToPoint>,
    pub waypoint: Option<Waypoint>,
    pub unit_spawner: Option<UnitSpawner>,
    pub building_ghost: Option<BuildingGhost>,
}

impl Components {
    /// What is left of a destroyed entity: nothing.
    pub open spec fn vacant() -> Components {
        Components {
            alive: false,
            parent: None,
            sensor: false,
            unit: false,
            building: false,
            castle: false,
            blueprint: None,
            team: None,
            position: None,
            health: None,
            vision_range: None,
            visible: false,
            attack_stats: None,
            attack_target: None,
            movement_speed: None,
            opponent_follower: false,
            waypoint_follower: None,
            move_target: None,
            move_to_point: None,
            waypoint: None,
            unit_spawner: None,
            building_ghost: None,
        }
    }

    /// A living entity without any component.
    pub open spec fn bare() -> Components {
        Components { alive: true, ..Components::vacant() }
    }

    /// What is left of a destroyed entity: nothing.
    pub fn cleared() -> (c: Components)
        ensures
            c == Components::vacant(),
    {
        Components {
            alive: false,
            parent: None,
            sensor: false,
            unit: false,
            building: false,
            castle: false,
            blueprint: None,
            team: None,
            position: None,
            health: None,
            vision_range: None,
            visible: false,
            attack_stats: None,
            attack_target: None,
            movement_speed: None,
            opponent_follower: false,
            waypoint_follower: None,
            move_target: None,
            move_to_point: None,
            waypoint: None,
            unit_spawner: None,
            building_ghost: None,
        }
    }

    /// A living entity without any component.
    pub fn new() -> (c: Components)
        ensures
            c == Components::bare(),
    {
        let mut c = Components::cleared();
        c.alive = true;
        c
    }
}

/// The state of a match.
pub struct WorldState {
    /// The components of every entity ever created, by entity number.
    pub entities: Seq<Components>,
    /// What each entity perceives, by entity number.
    pub in_vision: Seq<Option<Perceived>>,
    /// Each team's start waypoints.
    pub start_points: StartPoints,
    /// The player's team and faction.
    pub settings: PlayerSettings,
    /// Time since the last perception pass.
    pub clock: PerceptionClock,
}

impl WorldState {
    /// The number of entities ever created.
    pub open spec fn len(self) -> nat {
        self.entities.len()
    }

    /// The components of `entity`. An entity that never existed has none,
    /// like one that was destroyed.
    pub open spec fn components(self, entity: Entity) -> Components {
        if entity.index() < self.entities.len() {
            self.entities[entity.index()]
        } else {
            Components::vacant()
        }
    }

    /// What `entity` perceives, if it perceives.
    pub open spec fn perceived_by(self, entity: Entity) -> Option<Perceived> {
        if entity.index() < self.in_vision.len() {
            self.in_vision[entity.index()]
        } else {
            None
        }
    }

    /// Whether `entity` exists.
    pub open spec fn alive(self, entity: Entity) -> bool {
        self.components(entity).alive
    }

    /// Whether the entity numbered `slot` may have the components `c`: it
    /// lives, it is attached, if at all, to a living entity created before
    /// it, and what it spawns or previews, if anything, is in the catalogue.
    pub open spec fn admits(self, slot: int, c: Components) -> bool {
        &&& c.alive
        &&& c.parent matches Some(parent) ==> parent.index() < slot && self.alive(parent)
        &&& c.unit_spawner matches Some(spawner) ==> spawner.unit_blueprint
            < self.settings.faction.spec_units().len()
        &&& c.building_ghost matches Some(placing) ==> placing.building_blueprint
            < self.settings.faction.spec_buildings().len()
    }

    /// The invariant of a world.
    pub open spec fn wf(self) -> bool {
        &&& self.in_vision.len() == self.entities.len()
        &&& self.settings.faction.wf()
        &&& self.clock.elapsed < PERCEPTION_PERIOD
        &&& forall|i: int|
            0 <= i < self.entities.len() ==> if (#[trigger] self.entities[i]).alive {
                self.admits(i, self.entities[i])
            } else {
                self.entities[i] == Components::vacant() && self.in_vision[i] is None
            }
    }

    /// Whether a step from `before` to `after` leaves an entity's place in
    /// the world alone: it neither creates nor destroys the entity, nor
    /// reattaches it, nor gives it another blueprint to spawn or preview.
    pub open spec fn steady(before: Components, after: Components) -> bool {
        &&& after.alive == before.alive
        &&& after.parent == before.parent
        &&& !before.alive ==> after == before
        &&& after.unit_spawner matches Some(spawner) ==> before.unit_spawner is Some
            && before.unit_spawner->0.unit_blueprint == spawner.unit_blueprint
        &&& after.building_ghost matches Some(placing) ==> before.building_ghost is Some
            && before.building_ghost->0.building_blueprint == placing.building_blueprint
    }

    /// A step that leaves every entity's place in the world alone keeps the
    /// invariant.
    pub proof fn lemma_steady_step(self, next: WorldState)
        requires
            self.wf(),
            next.entities.len() == self.entities.len(),
            next.in_vision.len() == self.in_vision.len(),
            next.settings == self.settings,
            next.clock.elapsed < PERCEPTION_PERIOD,
            forall|i: int|
                0 <= i < self.entities.len() ==> WorldState::steady(
                    #[trigger] self.entities[i],
                    next.entities[i],
                ),
            forall|i: int|
                0 <= i < self.entities.len() && !self.entities[i].alive
                    ==> #[trigger] next.in_vision[i] is None,
        ensures
            next.wf(),
    {
        assert forall|i: int| 0 <= i < next.entities.len() implies if (
        #[trigger] next.entities[i]).alive {
            next.admits(i, next.entities[i])
        } else {
            next.entities[i] == Components::vacant() && next.in_vision[i] is None
        } by {
            assert(WorldState::steady(self.entities[i], next.entities[i]));
            if next.entities[i].alive {
                assert(self.admits(i, self.entities[i]));
                if let Some(parent) = next.entities[i].parent {
                    assert(WorldState::steady(
                        self.entities[parent.index()],
                        next.entities[parent.index()],
                    ));
                }
            }
        }
    }
}

/// What a slot of the perception table holds.
pub open spec fn vision_view(vision: Option<InVision>) -> Option<Perceived> {
    match vision {
        Some(v) => Some(v@),
        None => None,
    }
}

/// The storage of a match. Every operation keeps [`WorldState::wf`].
#[derive(Debug)]
pub struct World {
    pub(crate) entities: Vec<Components>,
    pub(crate) in_vision: Vec<Option<InVision>>,
    pub(crate) waypoint_map: WaypointMap,
    pub(crate) player_settings: PlayerSettings,
    pub(crate) clock: PerceptionClock,
}

impl World {
    /// The state that the storage holds.
    pub open(crate) spec fn view(&self) -> WorldState {
        WorldState {
            entities: self.entities@,
            in_vision: Seq::new(self.in_vision@.len(), |i: int| vision_view(self.in_vision@[i])),
            start_points: self.waypoint_map@,
            settings: self.player_settings,
            clock: self.clock,
        }
    }

    /// The invariant of the storage.
    pub open spec fn wf(&self) -> bool {
        self@.wf()
    }

    /// Whether two storages differ at most in the components of entities.
    pub open(crate) spec fn same_but_entities(&self, other: &World) -> bool {
        &&& self.in_vision == other.in_vision
        &&& self.waypoint_map == other.waypoint_map
        &&& self.player_settings == other.player_settings
        &&& self.clock == other.clock
    }

    /// A world without entities.
    pub fn new(player_settings: PlayerSettings) -> (world: World)
        requires
            player_settings.faction.wf(),
        ensures
            world.wf(),
            world@.entities == Seq::<Components>::empty(),
            world@.in_vision == Seq::<Option<Perceived>>::empty(),
            world@.start_points == StartPoints::none(),
            world@.settings == player_settings,
            world@.clock.elapsed == 0,
    {
        World {
            entities: Vec::new(),
            in_vision: Vec::new(),
            waypoint_map: WaypointMap::new(),
            player_settings,
            clock: PerceptionClock::new(),
        }
    }

    /// Gives the settings back at the end of a match.
    pub fn into_player_settings(self) -> (settings: PlayerSettings)
        ensures
            settings == self@.settings,
    {
        self.player_settings
    }

    /// The number of entities ever created.
    pub fn len(&self) -> (n: usize)
        ensures
            n == self@.len(),
    {
        self.entities.len()
    }

    /// The player's team and faction.
    pub fn player_settings(&self) -> (settings: &PlayerSettings)
        ensures
            *settings == self@.settings,
    {
        &self.player_settings
    }

    /// Each team's start waypoints.
    pub fn waypoint_map(&self) -> (map: &WaypointMap)
        ensures
            map@ == self@.start_points,
    {
        &self.waypoint_map
    }

    /// The slot of `entity` in the tables, if it has one.
    pub(crate) fn slot(&self, entity: Entity) -> (slot: Option<usize>)
        ensures
            slot is Some <==> entity.index() < self@.len(),
            slot matches Some(i) ==> i == entity.index(),
    {
        if entity.0 < self.entities.len() as u64 {
            Some(entity.0 as usize)
        } else {
            None
        }
    }

    /// The components of `entity`; none for an entity that does not exist.
    pub fn components(&self, entity: Entity) -> (c: Components)
        ensures
            c == self@.components(entity),
    {
        match self.slot(entity) {
            Some(i) => self.entities[i],
            None => Components::cleared(),
        }
    }

    /// Whether `entity` exists.
    pub fn is_alive(&self, entity: Entity) -> (alive: bool)
        ensures
            alive == self@.alive(entity),
    {
        self.components(entity).alive
    }

    /// What `entity` perceives, if it perceives.
    pub fn in_vision(&self, entity: Entity) -> (vision: Option<&InVision>)
        requires
            self.wf(),
        ensures
            vision_view_of(vision) == self@.perceived_by(entity),
    {
        match self.slot(entity) {
            Some(i) => self.in_vision[i].as_ref(),
            None => None,
        }
    }

    /// Whether the entity numbered `slot` may have the components `c`.
    pub(crate) fn admits(&self, slot: usize, c: &Components) -> (ok: bool)
        ensures
            ok == self@.admits(slot as int, *c),
    {
        if !c.alive {
            return false;
        }
        if let Some(parent) = c.parent {
            if parent.0 >= slot as u64 || !self.is_alive(parent) {
                return false;
            }
        }
        if let Some(spawner) = c.unit_spawner {
            if spawner.unit_blueprint >= self.player_settings.faction.units().len() {
                return false;
            }
        }
        if let Some(placing) = c.building_ghost {
            if placing.building_blueprint >= self.player_settings.faction.buildings().len() {
                return false;
            }
        }
        true
    }

    /// Creates an entity with the given components and perception. The
    /// entity is created, and its handle returned, exactly when the world
    /// admits the components for a new entity.
    pub fn spawn(&mut self, components: Components, vision: Option<InVision>) -> (entity: Option<
        Entity,
    >)
        requires
            old(self).wf(),
        ensures
            final(self).wf(),
            entity is Some <==> old(self)@.admits(old(self)@.len() as int, components),
            entity matches Some(e) ==> e.index() == old(self)@.len() && final(self)@ == (WorldState {
                entities: old(self)@.entities.push(components),
                in_vision: old(self)@.in_vision.push(vision_view(vision)),
                ..old(self)@
            }),
            entity is None ==> final(self)@ == old(self)@,
    {
        let slot = self.entities.len();
        if !self.admits(slot, &components) {
            return None;
        }
        self.entities.push(components);
        self.in_vision.push(vision);
        proof {
            assert(self@.in_vision =~= old(self)@.in_vision.push(vision_view(vision)));
            let before = old(self)@;
            let after = self@;
            assert forall|i: int| 0 <= i < after.entities.len() implies if (
            #[trigger] after.entities[i]).alive {
                after.admits(i, after.entities[i])
            } else {
                after.entities[i] == Components::vacant() && after.in_vision[i] is None
            } by {
                if i < before.entities.len() {
                    assert(after.entities[i] == before.entities[i]);
                    assert(after.in_vision[i] == before.in_vision[i]);
                    if before.entities[i].alive {
                        assert(before.admits(i, before.entities[i]));
                    }
                }
            }
        }
        Some(Entity(slot as u64))
    }

    /// Replaces the components of a living entity. Done, and `true`
    /// returned, exactly when `entity` lives and the world admits the
    /// components for it.
    pub fn update(&mut self, entity: Entity, components: Components) -> (done: bool)
        requires
            old(self).wf(),
        ensures
            final(self).wf(),
            done <==> old(self)@.alive(entity) && old(self)@.admits(entity.index(), components),
            final(self)@ == if done {
                WorldState {
                    entities: old(self)@.entities.update(entity.index(), components),
                    ..old(self)@
                }
            } else {
                old(self)@
            },
    {
        match self.slot(entity) {
            Some(i) => {
                if !self.entities[i].alive || !self.admits(i, &components) {
                    return false;
                }
                self.entities.set(i, components);
                proof {
                    assert(self@.in_vision =~= old(self)@.in_vision);
                    let before = old(self)@;
                    let after = self@;
                    assert forall|k: int| 0 <= k < after.entities.len() implies if (
                    #[trigger] after.entities[k]).alive {
                        after.admits(k, after.entities[k])
                    } else {
                        after.entities[k] == Components::vacant() && after.in_vision[k] is None
                    } by {
                        if k != i {
                            assert(after.entities[k] == before.entities[k]);
                            if before.entities[k].alive {
                                assert(before.admits(k, before.entities[k]));
                            }
                        }
                    }
                }
                true
            },
            None => false,
        }
    }

    /// Replaces what a living entity perceives. Done, and `true` returned,
    /// exactly when `entity` lives.
    pub fn set_in_vision(&mut self, entity: Entity, vision: Option<InVision>) -> (done: bool)
        requires
            old(self).wf(),
        ensures
            final(self).wf(),
            done <==> old(self)@.alive(entity),
            final(self)@ == if done {
                WorldState {
                    in_vision: old(self)@.in_vision.update(entity.index(), vision_view(vision)),
                    ..old(self)@
                }
            } else {
                old(self)@
            },
    {
        match self.slot(entity) {
            Some(i) => {
                if !self.entities[i].alive {
                    return false;
                }
                self.in_vision.set(i, vision);
                proof {
                    assert(self@.in_vision =~= old(self)@.in_vision.update(
                        entity.index(),
                        vision_view(vision),
                    ));
                    let before = old(self)@;
                    let after = self@;
                    assert forall|k: int| 0 <= k < after.entities.len() implies if (
                    #[trigger] after.entities[k]).alive {
                        after.admits(k, after.entities[k])
                    } else {
                        after.entities[k] == Components::vacant() && after.in_vision[k] is None
                    } by {
                        if before.entities[k].alive {
                            assert(before.admits(k, before.entities[k]));
                        }
                    }
                }
                true
            },
            None => false,
        }
    }
}

/// What a borrowed slot of the perception table holds.
pub open spec fn vision_view_of(vision: Option<&InVision>) -> Option<Perceived> {
    match vision {
        Some(v) => Some(v@),
        None => None,
    }
}

} // verus!
