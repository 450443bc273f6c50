use castle_fight::attack::AttackStats;
use castle_fight::buildings::{spawn_building, spawn_ghost_building, BuildingGhost};
use castle_fight::entity::Entity;
use castle_fight::geometry::Point;
use castle_fight::health::Health;
use castle_fight::load_factions::{
    BuildingBlueprint, ComponentBlueprint, FactionAsset, FactionBlueprint, FactionLoaderError,
    UnitBlueprint,
};
use castle_fight::movement::{MovementSpeed, WaypointFollower};
use castle_fight::resources::PlayerSettings;
use castle_fight::spawning::add_blueprint_components;
use castle_fight::teams::{Team, TeamAssociation};
use castle_fight::unit_spawning::UnitSpawner;
use castle_fight::units::spawn_unit;
use castle_fight::vision::{InVision, VisionRange};
use castle_fight::waypoints::{IsStartPoint, WaypointMap};
use castle_fight::world::{Components, World};

fn footman() -> UnitBlueprint {
    UnitBlueprint {
        id: "footman".to_string(),
        name: "Footman".to_string(),
        sprite: "units/footman.png".to_string(),
        components: vec![
            ComponentBlueprint::Health { max_health: 5, health: 5 },
            ComponentBlueprint::AttackStats { damage: 1, attack_speed: 2_000, attack_range: 16_000 },
            ComponentBlueprint::VisionRange(96_000),
            ComponentBlueprint::OpponentFollower,
            ComponentBlueprint::MovementSpeed(96_000),
            ComponentBlueprint::Visible,
        ],
    }
}

fn barracks() -> BuildingBlueprint {
    BuildingBlueprint {
        id: "barracks".to_string(),
        name: "Barracks".to_string(),
        sprite: "buildings/barracks.png".to_string(),
        icon: "icons/barracks.png".to_string(),
        components: vec![
            ComponentBlueprint::Health { max_health: 10, health: 10 },
            ComponentBlueprint::UnitSpawner {
                unit_id: "footman".to_string(),
                spawn_time: 5_000_000,
            },
            ComponentBlueprint::Visible,
        ],
    }
}

fn settings() -> PlayerSettings {
    let asset = FactionAsset {
        id: "humans".to_string(),
        name: "Humans".to_string(),
        buildings: vec![barracks()],
        units: vec![footman()],
    };
    PlayerSettings { team: Team::Red, faction: FactionBlueprint::from_asset(asset).unwrap() }
}

#[test]
fn a_blueprint_becomes_live_components() {
    let settings = settings();
    let mut c = Components::new();
    let mut vision = None;
    let added = add_blueprint_components(&mut c, &mut vision, &footman().components, &settings);
    assert!(added.is_ok());
    assert_eq!(c.health, Some(Health { max_health: 5, health: 5 }));
    let stats = c.attack_stats.unwrap();
    assert_eq!(
        stats,
        AttackStats { damage: 1, attack_speed: 2_000, attack_range: 16_000, time_till_next_attack: 0 }
    );
    assert_eq!(c.vision_range, Some(VisionRange(96_000)));
    assert_eq!(c.movement_speed, Some(MovementSpeed(96_000)));
    assert!(c.opponent_follower);
    assert!(c.visible);
    assert!(c.alive);
    assert_eq!(c.unit_spawner, None);
    let seen = vision.unwrap();
    assert!(seen.friendlies.is_empty() && seen.enemies.is_empty());
}

#[test]
fn a_later_blueprint_replaces_an_earlier_of_its_kind() {
    let settings = settings();
    let mut c = Components::new();
    let mut vision = None;
    let blueprints = vec![
        ComponentBlueprint::Health { max_health: 5, health: 5 },
        ComponentBlueprint::MovementSpeed(1),
        ComponentBlueprint::Health { max_health: 9, health: 7 },
    ];
    assert!(add_blueprint_components(&mut c, &mut vision, &blueprints, &settings).is_ok());
    assert_eq!(c.health, Some(Health { max_health: 9, health: 7 }));
    assert!(vision.is_none());
}

#[test]
fn vision_range_resets_what_is_perceived() {
    let settings = settings();
    let mut c = Components::new();
    let mut vision = Some(InVision { friendlies: vec![Entity(1)], enemies: vec![Entity(2)] });
    let blueprints = vec![ComponentBlueprint::VisionRange(5)];
    assert!(add_blueprint_components(&mut c, &mut vision, &blueprints, &settings).is_ok());
    assert!(vision.unwrap().enemies.is_empty());
    let mut untouched = Some(InVision { friendlies: vec![], enemies: vec![Entity(2)] });
    assert!(add_blueprint_components(&mut c, &mut untouched, &vec![], &settings).is_ok());
    assert_eq!(untouched.unwrap().enemies, vec![Entity(2)]);
}

#[test]
fn a_spawner_blueprint_starts_a_full_period() {
    let settings = settings();
    let mut c = Components::new();
    let mut vision = None;
    assert!(add_blueprint_components(&mut c, &mut vision, &barracks().components, &settings).is_ok());
    assert_eq!(
        c.unit_spawner,
        Some(UnitSpawner { spawn_time: 5_000_000, time_left: 5_000_000, unit_blueprint: 0 })
    );
}

#[test]
fn an_unknown_unit_adds_nothing() {
    let settings = settings();
    let mut c = Components::new();
    let mut vision = None;
    let blueprints = vec![
        ComponentBlueprint::Visible,
        ComponentBlueprint::UnitSpawner { unit_id: "dragon".to_string(), spawn_time: 1 },
        ComponentBlueprint::OpponentFollower,
    ];
    match add_blueprint_components(&mut c, &mut vision, &blueprints, &settings) {
        Err(FactionLoaderError::UnknownUnit { unit_id }) => assert_eq!(unit_id, "dragon"),
        other => panic!("expected an unknown unit, got {:?}", other),
    }
    assert_eq!(c, Components::new());
}

#[test]
fn a_spawned_unit_is_composed_from_its_blueprint() {
    let mut world = World::new(settings());
    let unit = spawn_unit(&mut world, Team::Blue, 0, 7_000, -9_000).unwrap();
    let c = world.components(unit);
    assert!(c.unit && !c.building);
    assert_eq!(c.team, Some(Team::Blue));
    assert_eq!(c.position, Some(Point { x: 7_000, y: -9_000 }));
    assert_eq!(c.health, Some(Health { max_health: 5, health: 5 }));
    assert_eq!(c.attack_stats.unwrap().time_till_next_attack, 0);
    assert_eq!(c.waypoint_follower, None);
    assert!(world.in_vision(unit).is_some());
    assert_eq!(spawn_unit(&mut world, Team::Blue, 1, 0, 0), None);
    assert_eq!(world.len(), 1);
}

#[test]
fn a_spawned_unit_follows_the_nearest_start_of_its_team() {
    let mut world = World::new(settings());
    let red = TeamAssociation(Team::Red);
    let blue = TeamAssociation(Team::Blue);
    let start = IsStartPoint(true);
    let far = world.add_start_waypoints_to_resources(500_000, 0, red, start, None);
    let near = world.add_start_waypoints_to_resources(0, 30_000, red, start, None);
    let as_near = world.add_start_waypoints_to_resources(30_000, 0, red, start, None);
    let blue_start = world.add_start_waypoints_to_resources(1, 1, blue, start, None);
    world.add_start_waypoints_to_resources(0, 0, red, IsStartPoint(false), None);

    let unit = spawn_unit(&mut world, Team::Red, 0, 0, 0).unwrap();
    assert_eq!(world.components(unit).waypoint_follower, Some(WaypointFollower { waypoint: near }));
    let other = spawn_unit(&mut world, Team::Blue, 0, 0, 0).unwrap();
    assert_eq!(
        world.components(other).waypoint_follower,
        Some(WaypointFollower { waypoint: blue_start })
    );
    let neutral = spawn_unit(&mut world, Team::Gaia, 0, 0, 0).unwrap();
    assert_eq!(world.components(neutral).waypoint_follower, None);

    let map = world.waypoint_map();
    assert_eq!(map.team_start_points(Team::Red).len(), 3);
    assert_eq!(map.team_start_points(Team::Blue), vec![(blue_start, Point { x: 1, y: 1 })]);
    let origin = Point { x: 0, y: 0 };
    assert_eq!(map.get_closest_start_waypoint(origin, Team::Red), Some(near));
    assert_eq!(map.get_closest_start_waypoint(Point { x: 400_000, y: 0 }, Team::Red), Some(far));
    assert_eq!(map.get_closest_start_waypoint(Point { x: 30_000, y: 1 }, Team::Red), Some(as_near));
    assert_eq!(map.get_closest_start_waypoint(origin, Team::Gaia), None);
}

#[test]
fn an_empty_map_has_no_start() {
    let mut map = WaypointMap::new();
    assert_eq!(map.get_closest_start_waypoint(Point { x: 0, y: 0 }, Team::Red), None);
    map.add_start_waypoint(Entity(3), Team::Red, Point { x: 1, y: 1 }, IsStartPoint(false));
    assert_eq!(map.get_closest_start_waypoint(Point { x: 0, y: 0 }, Team::Red), None);
    assert_eq!(map.team_start_points(Team::Red), vec![]);
    map.add_start_waypoint(Entity(4), Team::Red, Point { x: 1, y: 1 }, IsStartPoint::from_field(true));
    assert_eq!(map.get_closest_start_waypoint(Point { x: 0, y: 0 }, Team::Red), Some(Entity(4)));
    assert_eq!(IsStartPoint::default(), IsStartPoint(false));
}

#[test]
fn a_spawned_building_is_composed_from_its_blueprint() {
    let mut world = World::new(settings());
    let building = spawn_building(&mut world, Team::Red, 32_000, 64_000, 0).unwrap();
    let c = world.components(building);
    assert!(c.building && !c.unit && !c.castle);
    assert_eq!(c.team, Some(Team::Red));
    assert_eq!(c.health, Some(Health { max_health: 10, health: 10 }));
    assert_eq!(c.unit_spawner.unwrap().time_left, 5_000_000);
    assert!(world.in_vision(building).is_none());
    assert_eq!(spawn_building(&mut world, Team::Red, 0, 0, 1), None);
}

#[test]
fn a_ghost_previews_a_building() {
    let mut world = World::new(settings());
    let ghost = spawn_ghost_building(&mut world, Team::Blue, 1, 2, 0).unwrap();
    let c = world.components(ghost);
    assert_eq!(
        c.building_ghost,
        Some(BuildingGhost { placement_valid: true, team: Team::Blue, building_blueprint: 0 })
    );
    assert!(c.sensor && !c.building);
    assert_eq!(c.team, None);
    assert_eq!(spawn_ghost_building(&mut world, Team::Blue, 1, 2, 3), None);
}

#[test]
fn a_spawner_produces_one_unit_per_period() {
    let mut world = World::new(settings());
    let barracks = spawn_building(&mut world, Team::Red, 0, 0, 0).unwrap();
    assert_eq!(world.len(), 1);
    // Five seconds run down in steps of one second.
    for second in 1..=5 {
        world.unit_spawner_spawn_units(1_000_000);
        assert_eq!(world.len(), 1);
        let left = world.components(barracks).unit_spawner.unwrap().time_left;
        assert_eq!(left, 5_000_000 - second * 1_000_000);
    }
    // The next step finds no time left: one unit, and a new period at once.
    world.unit_spawner_spawn_units(1_000_000);
    assert_eq!(world.len(), 2);
    assert_eq!(world.components(barracks).unit_spawner.unwrap().time_left, 5_000_000);
    let unit = world.components(Entity(1));
    assert!(unit.unit);
    assert_eq!(unit.team, Some(Team::Red));
    assert_eq!(unit.position, Some(Point { x: 0, y: 0 }));
    world.unit_spawner_spawn_units(1_000_000);
    assert_eq!(world.len(), 2);
}

#[test]
fn a_spawner_keeps_its_cadence() {
    let mut world = World::new(settings());
    spawn_building(&mut world, Team::Red, 0, 0, 0).unwrap();
    let mut spawned_at = vec![];
    for step in 1..=40 {
        let before = world.len();
        world.unit_spawner_spawn_units(500_000);
        if world.len() > before {
            assert_eq!(world.len(), before + 1);
            spawned_at.push(step);
        }
    }
    assert_eq!(spawned_at, vec![11, 22, 33]);
}

#[test]
fn a_spawner_ticks_on_plain_values() {
    let mut spawner = UnitSpawner::new(5_000_000, 0);
    assert!(!spawner.tick(4_999_999));
    assert_eq!(spawner.time_left, 1);
    assert!(!spawner.tick(3));
    assert_eq!(spawner.time_left, -2);
    assert!(spawner.tick(3));
    assert_eq!(spawner.time_left, 5_000_000);
    assert!(!spawner.tick(0));
    assert_eq!(spawner.time_left, 5_000_000);
}

#[test]
fn a_spawner_without_place_or_team_waits() {
    let mut world = World::new(settings());
    let mut c = Components::new();
    let mut spawner = UnitSpawner::new(1, 0);
    spawner.time_left = 0;
    c.unit_spawner = Some(spawner);
    c.team = Some(Team::Red);
    let placeless = world.spawn(c, None).unwrap();
    world.unit_spawner_spawn_units(1);
    assert_eq!(world.len(), 1);
    assert_eq!(world.components(placeless).unit_spawner.unwrap().time_left, 0);
}
