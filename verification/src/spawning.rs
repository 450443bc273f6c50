//! Composition of an entity's components from a blueprint.

use vstd::prelude::*;
use crate::attack::AttackStats;
use crate::health::Health;
use crate::load_factions::{first_unknown_from, ComponentBlueprint, FactionLoaderError};
use crate::movement::MovementSpeed;
use crate::resources::PlayerSettings;
use crate::unit_spawning::UnitSpawner;
use crate::vision::{InVision, Perceived, VisionRange};
use crate::world::{vision_view, Components};

verus! {

/// The components `c` with the component that `blueprint` describes added,
/// in place of one of the same kind.
///
/// Hit points are as the blueprint gives them. Attack statistics start ready
/// to hit. A unit spawner starts at the beginning of a period and spawns the
/// unit that `slots` has for the id; where `slots` has none, no spawner is
/// added.
pub open spec fn with_component(
    c: Components,
    blueprint: ComponentBlueprint,
    slots: Map<Seq<char>, usize>,
) -> Components {
    match blueprint {
        ComponentBlueprint::Health { max_health, health } => Components {
            health: Some(Health { max_health, health }),
            ..c
        },
        ComponentBlueprint::Visible => Components { visible: true, ..c },
        ComponentBlueprint::OpponentFollower => Components { opponent_follower: true, ..c },
        ComponentBlueprint::MovementSpeed(speed) => Components {
            movement_speed: Some(MovementSpeed(speed)),
            ..c
        },
        ComponentBlueprint::AttackStats { damage, attack_speed, attack_range } => Components {
            attack_stats: Some(
                AttackStats { damage, attack_speed, attack_range, time_till_next_attack: 0 },
            ),
            ..c
        },
        ComponentBlueprint::UnitSpawner { unit_id, spawn_time } => if slots.contains_key(unit_id@) {
            Components {
                unit_spawner: Some(
                    UnitSpawner {
                        spawn_time,
                        time_left: spawn_time as i64,
                        unit_blueprint: slots[unit_id@],
                    },
                ),
                ..c
            }
        } else {
            c
        },
        ComponentBlueprint::VisionRange(range) => Components {
            vision_range: Some(VisionRange(range)),
            ..c
        },
    }
}

/// The components `c` with the first `k` of `blueprints` added in turn.
pub open spec fn composed_upto(
    c: Components,
    blueprints: Seq<ComponentBlueprint>,
    slots: Map<Seq<char>, usize>,
    k: int,
) -> Components
    decreases k,
{
    if k <= 0 {
        c
    } else {
        with_component(composed_upto(c, blueprints, slots, k - 1), blueprints[k - 1], slots)
    }
}

/// The components `c` with all of `blueprints` added in turn.
pub open spec fn composed(
    c: Components,
    blueprints: Seq<ComponentBlueprint>,
    slots: Map<Seq<char>, usize>,
) -> Components {
    composed_upto(c, blueprints, slots, blueprints.len() as int)
}

/// Whether one of the first `k` of `blueprints` is a vision range.
pub open spec fn grants_vision_upto(blueprints: Seq<ComponentBlueprint>, k: int) -> bool
    decreases k,
{
    if k <= 0 {
        false
    } else {
        blueprints[k - 1] is VisionRange || grants_vision_upto(blueprints, k - 1)
    }
}

/// What an entity perceives after `blueprints` were added: with a vision
/// range comes perception, empty at first; without one, `vision` stays.
pub open spec fn composed_vision(vision: Option<Perceived>, blueprints: Seq<ComponentBlueprint>) -> Option<
    Perceived,
> {
    if grants_vision_upto(blueprints, blueprints.len() as int) {
        Some(Perceived { friendlies: Seq::empty(), enemies: Seq::empty() })
    } else {
        vision
    }
}

/// Adding blueprints neither creates nor destroys nor reattaches an entity,
/// and a spawner that it adds spawns a unit that `slots` holds.
pub proof fn lemma_composed_upto(
    c: Components,
    blueprints: Seq<ComponentBlueprint>,
    slots: Map<Seq<char>, usize>,
    k: int,
)
    requires
        0 <= k <= blueprints.len(),
    ensures
        composed_upto(c, blueprints, slots, k).alive == c.alive,
        composed_upto(c, blueprints, slots, k).parent == c.parent,
        composed_upto(c, blueprints, slots, k).building_ghost == c.building_ghost,
        composed_upto(c, blueprints, slots, k).unit_spawner matches Some(spawner) ==> c.unit_spawner
            == Some(spawner) || exists|id: Seq<char>|
            slots.contains_key(id) && slots[id] == spawner.unit_blueprint,
    decreases k,
{
    if k > 0 {
        lemma_composed_upto(c, blueprints, slots, k - 1);
        let before = composed_upto(c, blueprints, slots, k - 1);
        match blueprints[k - 1] {
            ComponentBlueprint::UnitSpawner { unit_id, spawn_time } => {
                if slots.contains_key(unit_id@) {
                    assert(slots[unit_id@] == composed_upto(
                        c,
                        blueprints,
                        slots,
                        k,
                    ).unit_spawner->0.unit_blueprint);
                }
            },
            _ => {},
        }
    }
}

/// Adds the components that `component_blueprints` describe to `components`
/// and `vision`, in turn. Fails on the first unit spawner that names a unit
/// which the player's faction does not have; nothing is added then.
pub fn add_blueprint_components(
    components: &mut Components,
    vision: &mut Option<InVision>,
    component_blueprints: &Vec<ComponentBlueprint>,
    player_settings: &PlayerSettings,
) -> (r: Result<(), FactionLoaderError>)
    requires
        player_settings.faction.wf(),
    ensures
        match first_unknown_from(component_blueprints@, player_settings.faction.unit_slots(), 0) {
            Some(missing) => {
                &&& r matches Err(FactionLoaderError::UnknownUnit { unit_id })
                &&& unit_id@ == missing
                &&& *final(components) == *old(components)
                &&& *final(vision) == *old(vision)
            },
            None => {
                &&& r is Ok
                &&& *final(components) == composed(
                    *old(components),
                    component_blueprints@,
                    player_settings.faction.unit_slots(),
                )
                &&& vision_view(*final(vision)) == composed_vision(
                    vision_view(*old(vision)),
                    component_blueprints@,
                )
            },
        },
{
    let ghost slots = player_settings.faction.unit_slots();
    let mut c = *components;
    let mut grants = false;
    let mut k: usize = 0;
    while k < component_blueprints.len()
        invariant
            k <= component_blueprints@.len(),
            player_settings.faction.wf(),
            slots == player_settings.faction.unit_slots(),
            c == composed_upto(*old(components), component_blueprints@, slots, k as int),
            grants == grants_vision_upto(component_blueprints@, k as int),
            first_unknown_from(component_blueprints@, slots, 0) == first_unknown_from(
                component_blueprints@,
                slots,
                k as int,
            ),
            *components == *old(components),
            *vision == *old(vision),
        decreases component_blueprints@.len() - k,
    {
        match &component_blueprints[k] {
            ComponentBlueprint::Health { max_health, health } => {
                c.health = Some(Health { max_health: *max_health, health: *health });
            },
            ComponentBlueprint::Visible => {
                c.visible = true;
            },
            ComponentBlueprint::OpponentFollower => {
                c.opponent_follower = true;
            },
            ComponentBlueprint::MovementSpeed(speed) => {
                c.movement_speed = Some(MovementSpeed(*speed));
            },
            ComponentBlueprint::AttackStats { damage, attack_speed, attack_range } => {
                c.attack_stats = Some(AttackStats::new(*damage, *attack_speed, *attack_range));
            },
            ComponentBlueprint::UnitSpawner { unit_id, spawn_time } => {
                match player_settings.faction.unit_slot(unit_id.as_str()) {
                    Some(slot) => {
                        c.unit_spawner = Some(UnitSpawner::new(*spawn_time, slot));
                    },
                    None => {
                        return Err(FactionLoaderError::UnknownUnit { unit_id: unit_id.clone() });
                    },
                }
            },
            ComponentBlueprint::VisionRange(range) => {
                c.vision_range = Some(VisionRange(*range));
                grants = true;
            },
        }
        k += 1;
    }
    *components = c;
    if grants {
        *vision = Some(InVision::new());
    }
    Ok(())
}

} // verus!
