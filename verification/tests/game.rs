use castle_fight::attack::AttackTarget;
use castle_fight::buildings::spawn_building;
use castle_fight::entity::Entity;
use castle_fight::game::SimulationState;
use castle_fight::load_factions::{
    BuildingBlueprint, ComponentBlueprint, FactionAsset, FactionBlueprint, UnitBlueprint,
};
use castle_fight::resources::PlayerSettings;
use castle_fight::teams::{Team, TeamAssociation};
use castle_fight::units::spawn_unit;
use castle_fight::waypoints::IsStartPoint;
use castle_fight::world::World;

fn world() -> World {
    let footman = UnitBlueprint {
        id: "footman".to_string(),
        name: "Footman".to_string(),
        sprite: "units/footman.png".to_string(),
        components: vec![
            ComponentBlueprint::Health { max_health: 5, health: 5 },
            ComponentBlueprint::AttackStats { damage: 1, attack_speed: 2_000, attack_range: 16_000 },
            ComponentBlueprint::VisionRange(96_000),
            ComponentBlueprint::OpponentFollower,
            ComponentBlueprint::MovementSpeed(96_000),
            ComponentBlueprint::Visible,
        ],
    };
    let brute = UnitBlueprint {
        id: "brute".to_string(),
        name: "Brute".to_string(),
        sprite: "units/brute.png".to_string(),
        components: vec![
            ComponentBlueprint::Health { max_health: 20, health: 20 },
            ComponentBlueprint::AttackStats { damage: 2, attack_speed: 2_000, attack_range: 16_000 },
            ComponentBlueprint::VisionRange(96_000),
            ComponentBlueprint::OpponentFollower,
            ComponentBlueprint::MovementSpeed(96_000),
            ComponentBlueprint::Visible,
        ],
    };
    let barracks = BuildingBlueprint {
        id: "barracks".to_string(),
        name: "Barracks".to_string(),
        sprite: "buildings/barracks.png".to_string(),
        icon: "icons/barracks.png".to_string(),
        components: vec![ComponentBlueprint::UnitSpawner {
            unit_id: "footman".to_string(),
            spawn_time: 5_000_000,
        }],
    };
    let asset = FactionAsset {
        id: "humans".to_string(),
        name: "Humans".to_string(),
        buildings: vec![barracks],
        units: vec![footman, brute],
    };
    let faction = FactionBlueprint::from_asset(asset).unwrap();
    World::new(PlayerSettings { team: Team::Red, faction })
}

#[test]
fn two_units_meet_and_one_dies() {
    let mut world = world();
    let footman = spawn_unit(&mut world, Team::Red, 0, 0, 0).unwrap();
    let brute = spawn_unit(&mut world, Team::Blue, 1, 80_000, 0).unwrap();
    let mut dead = vec![];
    let mut chased = false;
    for _ in 0..600 {
        let c = world.components(footman);
        if c.attack_target == Some(AttackTarget(brute)) && c.move_target.is_some() {
            chased = true;
        }
        dead.extend(world.tick(16_667));
        if !dead.is_empty() {
            break;
        }
    }
    assert!(chased);
    assert_eq!(dead, vec![footman]);
    assert!(world.is_alive(brute));
    let survivor = world.components(brute);
    // Both hit every half second from the same tick on: the footman lands
    // its third hit in the pass in which the brute's third hit kills it.
    assert_eq!(survivor.health.unwrap().health, 17);
    assert_eq!(survivor.attack_target, Some(AttackTarget(footman)));
    // The next targeting pass gives the dead target up.
    world.tick(16_667);
    assert_eq!(world.components(brute).attack_target, None);
    // Once perception has run again, nothing stale is left to pick from.
    for _ in 0..13 {
        world.tick(16_667);
    }
    assert!(world.in_vision(brute).unwrap().enemies.is_empty());
    assert_eq!(world.components(brute).attack_target, None);
    for _ in 0..20 {
        world.tick(16_667);
    }
    assert_eq!(world.components(brute).attack_target, None);
    assert_eq!(world.components(brute).move_target, None);
}

#[test]
fn a_pause_stops_the_world() {
    let mut world = world();
    spawn_building(&mut world, Team::Red, 0, 0, 0).unwrap();
    let red = TeamAssociation(Team::Red);
    world.add_start_waypoints_to_resources(100_000, 0, red, IsStartPoint(true), None);
    for _ in 0..10 {
        assert!(world.step(SimulationState::Paused, 1_000_000).is_empty());
    }
    assert_eq!(world.len(), 2);
    assert_eq!(world.components(Entity(0)).unit_spawner.unwrap().time_left, 5_000_000);
    for _ in 0..6 {
        world.step(SimulationState::Running, 1_000_000);
    }
    assert_eq!(world.len(), 3);
}

#[test]
fn spawned_units_walk_their_path() {
    let mut world = world();
    let red = TeamAssociation(Team::Red);
    let end = world.add_start_waypoints_to_resources(300_000, 0, red, IsStartPoint(false), None);
    let start =
        world.add_start_waypoints_to_resources(100_000, 0, red, IsStartPoint(true), Some(end));
    spawn_building(&mut world, Team::Red, 0, 0, 0).unwrap();
    for _ in 0..6 {
        world.tick(1_000_000);
    }
    let unit = Entity(3);
    assert!(world.components(unit).unit);
    assert_eq!(world.components(unit).waypoint_follower.unwrap().waypoint, start);
    for _ in 0..300 {
        world.tick(16_667);
    }
    let c = world.components(unit);
    assert_eq!(c.waypoint_follower, None);
    assert!(c.position.unwrap().x > 236_000);
}
