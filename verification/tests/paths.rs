use castle_fight::entity::Entity;
use castle_fight::geometry::Point;
use castle_fight::load_factions::{setup_factions_resource, FactionAsset, FactionBlueprint};
use castle_fight::resources::PlayerSettings;
use castle_fight::systems::{display_content, AppState};
use castle_fight::teams::Team;
use castle_fight::waypoints::Waypoint;
use castle_fight::world::{Components, World};

fn empty_world() -> World {
    let asset = FactionAsset {
        id: "humans".to_string(),
        name: "Humans".to_string(),
        buildings: vec![],
        units: vec![],
    };
    let faction = FactionBlueprint::from_asset(asset).unwrap();
    World::new(PlayerSettings { team: Team::Red, faction })
}

#[test]
fn sample_paths_loop() {
    let mut world = empty_world();
    let (red, blue) = world.add_waypoints();
    assert_eq!(world.len(), 6);
    assert_eq!((red, blue), (Entity(2), Entity(5)));
    let next = |world: &World, e: Entity| world.components(e).waypoint.unwrap().next_waypoint.unwrap();
    assert_eq!(next(&world, red), Entity(1));
    assert_eq!(next(&world, Entity(1)), Entity(0));
    assert_eq!(next(&world, Entity(0)), red);
    assert_eq!(next(&world, next(&world, next(&world, blue))), blue);
    assert_eq!(world.components(Entity(0)).position, Some(Point { x: -160_000, y: 160_000 }));
    assert_eq!(world.components(Entity(3)).position, Some(Point { x: 160_000, y: 160_000 }));
    assert_eq!(world.components(red).position, Some(Point { x: 0, y: 0 }));
    let map = world.waypoint_map();
    assert_eq!(map.team_start_points(Team::Red), vec![(red, Point { x: 0, y: 0 })]);
    assert_eq!(map.team_start_points(Team::Blue), vec![(blue, Point { x: 0, y: 0 })]);
    assert_eq!(map.team_start_points(Team::Gaia), vec![]);
}

#[test]
fn waypoints_have_no_team() {
    let mut world = empty_world();
    let (red, _blue) = world.add_waypoints();
    let c = world.components(red);
    assert_eq!(c.team, None);
    assert_eq!(c.waypoint, Some(Waypoint { next_waypoint: Some(Entity(1)) }));
}

#[test]
fn the_end_of_a_match_clears_the_world() {
    let mut world = empty_world();
    world.add_waypoints();
    let mut attached = Components::new();
    attached.parent = Some(Entity(0));
    world.spawn(attached, None).unwrap();
    let gone = world.cleanup_after_game();
    assert_eq!(gone.len(), 7);
    for i in 0..7 {
        assert!(!world.is_alive(Entity(i)));
    }
    assert!(world.cleanup_after_game().is_empty());
}

#[test]
fn loading_leads_to_the_main_menu() {
    assert_eq!(display_content(None), None);
    let factions = setup_factions_resource(vec![]).unwrap();
    assert_eq!(display_content(Some(&factions)), Some(AppState::MainMenu));
}
