//! Units: what a newly spawned unit consists of.

use vstd::prelude::*;
use crate::entity::Entity;
use crate::geometry::Point;
use crate::load_factions::{lemma_all_resolve_from, lemma_id_slots, unit_ids};
use crate::movement::WaypointFollower;
use crate::spawning::{add_blueprint_components, composed, composed_vision, lemma_composed_upto};
use crate::teams::Team;
use crate::vision::InVision;
use crate::world::{Components, World, WorldState};

verus! {

impl WorldState {
    /// The components of a unit of `team` made at `position` from the unit
    /// blueprint in `slot`: its team, its position, what the blueprint
    /// describes, and, where the team has a start waypoint, the nearest one
    /// to follow.
    pub open spec fn unit_components(self, team: Team, slot: int, position: Point) -> Components {
        let base = Components {
            unit: true,
            blueprint: Some(slot as usize),
            team: Some(team),
            position: Some(position),
            ..Components::bare()
        };
        let c = composed(
            base,
            self.settings.faction.spec_units()[slot].components@,
            self.settings.faction.unit_slots(),
        );
        match self.start_points.closest(position, team) {
            Some(start) => Components {
                waypoint_follower: Some(WaypointFollower { waypoint: start }),
                ..c
            },
            None => c,
        }
    }

    /// The world with one more entity: a unit of `team` made at `position`
    /// from the unit blueprint in `slot`.
    pub open spec fn with_unit(self, team: Team, slot: int, position: Point) -> WorldState {
        WorldState {
            entities: self.entities.push(self.unit_components(team, slot, position)),
            in_vision: self.in_vision.push(
                composed_vision(None, self.settings.faction.spec_units()[slot].components@),
            ),
            ..self
        }
    }
}

/// Spawns a unit of `team` at `(x, y)` from the unit blueprint in slot
/// `unit_blueprint` of the player's faction. The unit follows the team's
/// nearest start waypoint; a team without one gets a unit that follows none.
/// `None`, and nothing spawned, exactly where the faction has no such slot.
pub fn spawn_unit(world: &mut World, team: Team, unit_blueprint: usize, x: i32, y: i32) -> (unit:
    Option<Entity>)
    requires
        old(world).wf(),
    ensures
        final(world).wf(),
        unit is Some <==> unit_blueprint < old(world)@.settings.faction.spec_units().len(),
        unit matches Some(e) ==> e.index() == old(world)@.len() && final(world)@ == old(
            world,
        )@.with_unit(team, unit_blueprint as int, Point { x, y }),
        unit is None ==> final(world)@ == old(world)@,
{
    let count = world.player_settings.faction.units().len();
    if unit_blueprint >= count {
        return None;
    }
    let position = Point { x, y };
    let mut c = Components::new();
    c.unit = true;
    c.blueprint = Some(unit_blueprint);
    c.team = Some(team);
    c.position = Some(position);
    let mut vision: Option<InVision> = None;
    let ghost base = c;
    let ghost blueprints = world@.settings.faction.spec_units()[unit_blueprint as int].components@;
    let ghost slots = world@.settings.faction.unit_slots();
    proof {
        world.player_settings.faction.lemma_references_resolve();
        lemma_all_resolve_from(blueprints, slots, 0);
        lemma_composed_upto(base, blueprints, slots, blueprints.len() as int);
        assert forall|id: Seq<char>| slots.contains_key(id) implies slots[id] < count by {
            lemma_id_slots(unit_ids(world@.settings.faction.spec_units()), id);
        }
    }
    let added = add_blueprint_components(
        &mut c,
        &mut vision,
        &world.player_settings.faction.units()[unit_blueprint].components,
        &world.player_settings,
    );
    if let Some(start) = world.waypoint_map.get_closest_start_waypoint(position, team) {
        c.waypoint_follower = Some(WaypointFollower { waypoint: start });
    }
    world.spawn(c, vision)
}

} // verus!
