use castle_fight::attack::{AttackStats, AttackTarget};
use castle_fight::entity::Entity;
use castle_fight::geometry::Point;
use castle_fight::health::Health;
use castle_fight::load_factions::{FactionAsset, FactionBlueprint};
use castle_fight::movement::{
    seek, sync_attack, sync_waypoint, walk, MoveTarget, MoveToPoint, MovementSpeed,
    WaypointFollower, WaypointSight, ARRIVAL_RADIUS,
};
use castle_fight::resources::PlayerSettings;
use castle_fight::teams::{Team, TeamAssociation};
use castle_fight::waypoints::{IsStartPoint, Waypoint};
use castle_fight::world::{Components, World};

fn empty_world() -> World {
    let asset = FactionAsset {
        id: "humans".to_string(),
        name: "Humans".to_string(),
        buildings: vec![],
        units: vec![],
    };
    let faction = FactionBlueprint::from_asset(asset).unwrap();
    World::new(PlayerSettings { team: Team::Red, faction })
}

fn waypoint(world: &mut World, x: i32, y: i32, next: Option<Entity>) -> Entity {
    world.add_start_waypoints_to_resources(
        x,
        y,
        TeamAssociation(Team::Red),
        IsStartPoint(false),
        next,
    )
}

fn walker(x: i32, y: i32, towards: Entity) -> Components {
    let mut c = Components::new();
    c.team = Some(Team::Red);
    c.position = Some(Point { x, y });
    c.movement_speed = Some(MovementSpeed(96_000));
    c.waypoint_follower = Some(WaypointFollower { waypoint: towards });
    c
}

#[test]
fn a_follower_takes_its_waypoint_as_move_target() {
    let mut world = empty_world();
    let w1 = waypoint(&mut world, 0, 0, None);
    let unit = world.spawn(walker(500_000, 0, w1), None).unwrap();
    world.sync_waypoint_move_target();
    let c = world.components(unit);
    assert_eq!(c.move_target, Some(MoveTarget(w1)));
    assert_eq!(c.waypoint_follower, Some(WaypointFollower { waypoint: w1 }));
}

#[test]
fn a_follower_far_from_its_waypoint_does_not_advance() {
    let mut world = empty_world();
    let w2 = waypoint(&mut world, 0, 300_000, None);
    let w1 = waypoint(&mut world, 0, 0, Some(w2));
    let mut c = walker(64_000, 0, w1);
    c.move_target = Some(MoveTarget(w1));
    let unit = world.spawn(c, None).unwrap();
    // Exactly at the arrival radius is not yet within it.
    world.sync_waypoint_move_target();
    let c = world.components(unit);
    assert_eq!(c.waypoint_follower, Some(WaypointFollower { waypoint: w1 }));
    assert_eq!(c.move_target, Some(MoveTarget(w1)));
}

#[test]
fn a_follower_near_its_waypoint_goes_on_to_the_next() {
    let mut world = empty_world();
    let w2 = waypoint(&mut world, 0, 300_000, None);
    let w1 = waypoint(&mut world, 0, 0, Some(w2));
    let mut c = walker(63_999, 0, w1);
    c.move_target = Some(MoveTarget(w1));
    let unit = world.spawn(c, None).unwrap();
    world.sync_waypoint_move_target();
    let c = world.components(unit);
    assert_eq!(c.waypoint_follower, Some(WaypointFollower { waypoint: w2 }));
    assert_eq!(c.move_target, Some(MoveTarget(w2)));
}

#[test]
fn the_end_of_the_path_stops_the_follower() {
    let mut world = empty_world();
    let w1 = waypoint(&mut world, 0, 0, None);
    let mut c = walker(10_000, 10_000, w1);
    c.move_target = Some(MoveTarget(w1));
    let unit = world.spawn(c, None).unwrap();
    world.sync_waypoint_move_target();
    let c = world.components(unit);
    assert_eq!(c.waypoint_follower, None);
    assert_eq!(c.move_target, None);

    let before = world.components(unit).position;
    for _ in 0..5 {
        world.tick(16_667);
    }
    assert_eq!(world.components(unit).position, before);
    assert_eq!(world.components(unit).move_target, None);
}

#[test]
fn a_looped_path_leads_back_to_its_start() {
    let mut world = empty_world();
    let w1 = waypoint(&mut world, 0, 0, None);
    let w2 = waypoint(&mut world, 0, 100_000, Some(w1));
    let mut first = world.components(w1);
    first.waypoint = Some(Waypoint { next_waypoint: Some(w2) });
    assert!(world.update(w1, first));
    let mut c = walker(0, 90_000, w2);
    c.move_target = Some(MoveTarget(w2));
    let unit = world.spawn(c, None).unwrap();
    world.sync_waypoint_move_target();
    assert_eq!(world.components(unit).waypoint_follower, Some(WaypointFollower { waypoint: w1 }));
}

#[test]
fn an_attack_target_suspends_the_path() {
    let mut world = empty_world();
    let w1 = waypoint(&mut world, 0, 0, None);
    let mut c = walker(1_000, 0, w1);
    c.attack_target = Some(AttackTarget(Entity(9)));
    let unit = world.spawn(c, None).unwrap();
    world.sync_waypoint_move_target();
    assert_eq!(world.components(unit).move_target, None);
    assert_eq!(world.components(unit).waypoint_follower, Some(WaypointFollower { waypoint: w1 }));
}

#[test]
fn a_foreign_move_target_is_left_alone() {
    let mut world = empty_world();
    let w1 = waypoint(&mut world, 0, 0, None);
    let elsewhere = waypoint(&mut world, 5_000, 0, None);
    let mut c = walker(1_000, 0, w1);
    c.move_target = Some(MoveTarget(elsewhere));
    let unit = world.spawn(c, None).unwrap();
    world.sync_waypoint_move_target();
    assert_eq!(world.components(unit).move_target, Some(MoveTarget(elsewhere)));
    assert_eq!(world.components(unit).waypoint_follower, Some(WaypointFollower { waypoint: w1 }));
}

#[test]
fn attack_overrides_waypoint() {
    let mut world = empty_world();
    let w1 = waypoint(&mut world, 0, 0, None);
    let mut foe = Components::new();
    foe.team = Some(Team::Blue);
    foe.position = Some(Point { x: 200_000, y: 0 });
    foe.health = Some(Health::from_field(5));
    let foe = world.spawn(foe, None).unwrap();
    let mut c = walker(100_000, 0, w1);
    c.opponent_follower = true;
    c.attack_stats = Some(AttackStats::new(1, 2_000, 16_000));
    c.move_target = Some(MoveTarget(w1));
    c.attack_target = Some(AttackTarget(foe));
    let unit = world.spawn(c, None).unwrap();

    world.sync_attack_move_target();
    world.sync_waypoint_move_target();
    assert_eq!(world.components(unit).move_target, Some(MoveTarget(foe)));
    assert_eq!(world.components(unit).waypoint_follower, Some(WaypointFollower { waypoint: w1 }));

    // The other order gives the same.
    let mut c = world.components(unit);
    c.move_target = Some(MoveTarget(w1));
    assert!(world.update(unit, c));
    world.sync_waypoint_move_target();
    world.sync_attack_move_target();
    assert_eq!(world.components(unit).move_target, Some(MoveTarget(foe)));
}

#[test]
fn only_opponent_followers_chase() {
    let mut world = empty_world();
    let w1 = waypoint(&mut world, 0, 0, None);
    let mut c = walker(100_000, 0, w1);
    c.attack_target = Some(AttackTarget(Entity(0)));
    let unit = world.spawn(c, None).unwrap();
    world.sync_attack_move_target();
    assert_eq!(world.components(unit).move_target, None);
}

#[test]
fn seeking_gives_a_walk_command() {
    let mut world = empty_world();
    let w1 = waypoint(&mut world, 7_000, -3_000, None);
    let mut c = walker(100_000, 0, w1);
    c.move_target = Some(MoveTarget(w1));
    let unit = world.spawn(c, None).unwrap();
    world.move_towards_target();
    let c = world.components(unit);
    assert_eq!(c.move_to_point, Some(MoveToPoint(Point { x: 7_000, y: -3_000 })));
    assert_eq!(c.move_target, Some(MoveTarget(w1)));
}

#[test]
fn seeking_a_vanished_target_drops_it() {
    let mut world = empty_world();
    let w1 = waypoint(&mut world, 7_000, -3_000, None);
    let mut c = walker(100_000, 0, w1);
    c.move_target = Some(MoveTarget(w1));
    let unit = world.spawn(c, None).unwrap();
    world.despawn(w1);
    world.move_towards_target();
    let c = world.components(unit);
    assert_eq!(c.move_to_point, None);
    assert_eq!(c.move_target, None);
}

#[test]
fn walking_uses_the_command_up() {
    let mut world = empty_world();
    let mut c = Components::new();
    c.position = Some(Point { x: 0, y: 0 });
    c.movement_speed = Some(MovementSpeed(96_000));
    c.move_to_point = Some(MoveToPoint(Point { x: 30_000, y: 40_000 }));
    let unit = world.spawn(c, None).unwrap();
    world.move_towards_point(16_667);
    let c = world.components(unit);
    // 1600 sub-units along a 3-4-5 line.
    assert_eq!(c.position, Some(Point { x: 960, y: 1_280 }));
    assert_eq!(c.move_to_point, None);
    world.move_towards_point(16_667);
    assert_eq!(world.components(unit).position, Some(Point { x: 960, y: 1_280 }));
}

#[test]
fn walking_needs_a_speed() {
    let mut world = empty_world();
    let mut c = Components::new();
    c.position = Some(Point { x: 0, y: 0 });
    c.move_to_point = Some(MoveToPoint(Point { x: 30_000, y: 40_000 }));
    let unit = world.spawn(c, None).unwrap();
    world.move_towards_point(16_667);
    let c = world.components(unit);
    assert_eq!(c.position, Some(Point { x: 0, y: 0 }));
    assert_eq!(c.move_to_point, Some(MoveToPoint(Point { x: 30_000, y: 40_000 })));
}

#[test]
fn a_walker_traverses_its_path() {
    let mut world = empty_world();
    let w2 = waypoint(&mut world, 200_000, 200_000, None);
    let w1 = waypoint(&mut world, 200_000, 0, Some(w2));
    let unit = world.spawn(walker(0, 0, w1), None).unwrap();
    let mut reached_second = false;
    for _ in 0..400 {
        world.tick(16_667);
        let c = world.components(unit);
        if c.waypoint_follower == Some(WaypointFollower { waypoint: w2 }) {
            reached_second = true;
        }
        if c.waypoint_follower.is_none() {
            break;
        }
    }
    assert!(reached_second);
    let c = world.components(unit);
    assert_eq!(c.waypoint_follower, None);
    assert_eq!(c.move_target, None);
    let end = Point { x: 200_000, y: 200_000 };
    assert!(c.position.unwrap().closer_than(end, ARRIVAL_RADIUS));
}

#[test]
fn movement_rules_on_plain_values() {
    let here = Point { x: 0, y: 0 };
    let w1 = Entity(1);
    let w2 = Entity(2);
    let follower = WaypointFollower { waypoint: w1 };
    let near = WaypointSight {
        position: Point { x: 100, y: 0 },
        waypoint: Waypoint { next_waypoint: Some(w2) },
    };
    assert_eq!(
        sync_waypoint(here, follower, None, None),
        (Some(follower), Some(MoveTarget(w1)))
    );
    assert_eq!(
        sync_waypoint(here, follower, Some(MoveTarget(w1)), Some(near)),
        (Some(WaypointFollower { waypoint: w2 }), Some(MoveTarget(w2)))
    );
    assert_eq!(
        sync_waypoint(here, follower, Some(MoveTarget(w1)), None),
        (Some(follower), Some(MoveTarget(w1)))
    );
    assert_eq!(sync_attack(AttackTarget(w2)), MoveTarget(w2));
    assert_eq!(
        seek(MoveTarget(w1), Some(here), None),
        (Some(MoveTarget(w1)), Some(MoveToPoint(here)))
    );
    let old = Some(MoveToPoint(Point { x: 5, y: 5 }));
    assert_eq!(seek(MoveTarget(w1), None, old), (None, old));
    assert_eq!(
        walk(here, MoveToPoint(Point { x: 0, y: 10_000 }), MovementSpeed(1_000), 1_000_000),
        Point { x: 0, y: 1_000 }
    );
}
