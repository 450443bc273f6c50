//! Buildings and the ghost that previews where one is to stand.

use vstd::prelude::*;
use crate::entity::Entity;
use crate::geometry::Point;
use crate::load_factions::{lemma_all_resolve_from, lemma_id_slots, unit_ids};
use crate::spawning::{add_blueprint_components, composed, composed_vision, lemma_composed_upto};
use crate::teams::Team;
use crate::vision::InVision;
use crate::world::{vision_view, Components, World, WorldState};

verus! {

/// Marks a building.
#[derive(Clone, Copy, Debug, PartialEq, Eq, Hash, Structural)]
pub struct Building;

/// Marks a team's castle.
#[derive(Clone, Copy, Debug, PartialEq, Eq, Hash, Structural)]
pub struct Castle;

/// The preview of a building that the player is about to place.
#[derive(Clone, Copy, Debug, PartialEq, Eq, Hash, Structural)]
pub struct BuildingGhost {
    /// Whether the building may stand where the ghost is.
    pub placement_valid: bool,
    pub team: Team,
    /// Slot of the building's blueprint in the faction catalogue.
    pub building_blueprint: usize,
}

impl WorldState {
    /// The components of a building of `team` made at `position` from the
    /// building blueprint in `slot`: its team, its position and what the
    /// blueprint describes.
    pub open spec fn building_components(self, team: Team, slot: int, position: Point) -> Components {
        composed(
            Components {
                building: true,
                blueprint: Some(slot as usize),
                team: Some(team),
                position: Some(position),
                ..Components::bare()
            },
            self.settings.faction.spec_buildings()[slot].components@,
            self.settings.faction.unit_slots(),
        )
    }

    /// The world with one more entity: a building of `team` made at
    /// `position` from the building blueprint in `slot`.
    pub open spec fn with_building(self, team: Team, slot: int, position: Point) -> WorldState {
        WorldState {
            entities: self.entities.push(self.building_components(team, slot, position)),
            in_vision: self.in_vision.push(
                composed_vision(None, self.settings.faction.spec_buildings()[slot].components@),
            ),
            ..self
        }
    }

    /// The components of the ghost of a building: a sensor at `position`
    /// that previews the building blueprint in `slot` for `team`, with the
    /// placement taken for valid.
    pub open spec fn ghost_components(team: Team, slot: usize, position: Point) -> Components {
        Components {
            sensor: true,
            position: Some(position),
            building_ghost: Some(
                BuildingGhost { placement_valid: true, team, building_blueprint: slot },
            ),
            ..Components::bare()
        }
    }

    /// The world with one more entity: the ghost of a building.
    pub open spec fn with_ghost(self, team: Team, slot: usize, position: Point) -> WorldState {
        WorldState {
            entities: self.entities.push(WorldState::ghost_components(team, slot, position)),
            in_vision: self.in_vision.push(None),
            ..self
        }
    }
}

/// Spawns a building of `team` at `(x, y)` from the building blueprint in
/// slot `building_blueprint` of the player's faction. `None`, and nothing
/// spawned, exactly where the faction has no such slot.
pub fn spawn_building(world: &mut World, team: Team, x: i32, y: i32, building_blueprint: usize) -> (building:
    Option<Entity>)
    requires
        old(world).wf(),
    ensures
        final(world).wf(),
        building is Some <==> building_blueprint < old(
            world,
        )@.settings.faction.spec_buildings().len(),
        building matches Some(e) ==> e.index() == old(world)@.len() && final(world)@ == old(
            world,
        )@.with_building(team, building_blueprint as int, Point { x, y }),
        building is None ==> final(world)@ == old(world)@,
{
    if building_blueprint >= world.player_settings.faction.buildings().len() {
        return None;
    }
    let count = world.player_settings.faction.units().len();
    let mut c = Components::new();
    c.building = true;
    c.blueprint = Some(building_blueprint);
    c.team = Some(team);
    c.position = Some(Point { x, y });
    let mut vision: Option<InVision> = None;
    let ghost base = c;
    let ghost blueprints = world@.settings.faction.spec_buildings()[building_blueprint as int].components@;
    let ghost slots = world@.settings.faction.unit_slots();
    proof {
        world.player_settings.faction.lemma_references_resolve();
        lemma_all_resolve_from(blueprints, slots, 0);
        lemma_composed_upto(base, blueprints, slots, blueprints.len() as int);
        assert forall|id: Seq<char>| slots.contains_key(id) implies slots[id] < count by {
            lemma_id_slots(unit_ids(world@.settings.faction.spec_units()), id);
        }
    }
    let added = add_blueprint_components(
        &mut c,
        &mut vision,
        &world.player_settings.faction.buildings()[building_blueprint].components,
        &world.player_settings,
    );
    world.spawn(c, vision)
}

/// Spawns the ghost of a building: a preview at `(x, y)` of the building
/// blueprint in slot `building_blueprint`, to be placed for `team`. `None`,
/// and nothing spawned, exactly where the faction has no such slot.
pub fn spawn_ghost_building(
    world: &mut World,
    team: Team,
    x: i32,
    y: i32,
    building_blueprint: usize,
) -> (placing: Option<Entity>)
    requires
        old(world).wf(),
    ensures
        final(world).wf(),
        placing is Some <==> building_blueprint < old(
            world,
        )@.settings.faction.spec_buildings().len(),
        placing matches Some(e) ==> e.index() == old(world)@.len() && final(world)@ == old(
            world,
        )@.with_ghost(team, building_blueprint, Point { x, y }),
        placing is None ==> final(world)@ == old(world)@,
{
    let mut c = Components::new();
    c.sensor = true;
    c.position = Some(Point { x, y });
    c.building_ghost = Some(BuildingGhost { placement_valid: true, team, building_blueprint });
    world.spawn(c, None)
}

} // verus!
