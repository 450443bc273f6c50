use castle_fight::attack::{AttackStats, AttackTarget};
use castle_fight::level::{
    resolve_next_waypoint, CastleBundle, UnresolvedNextWaypointRef,
};
use castle_fight::entity::Entity;
use castle_fight::health::Health;
use castle_fight::load_factions::{FactionAsset, FactionBlueprint};
use castle_fight::resources::PlayerSettings;
use castle_fight::teams::{Team, TeamAssociation};
use castle_fight::vision::InVision;
use castle_fight::waypoints::{IsStartPoint, Waypoint};
use castle_fight::world::{Components, World};

fn empty_world() -> World {
    let asset = FactionAsset {
        id: "humans".to_string(),
        name: "Humans".to_string(),
        buildings: vec![],
        units: vec![],
    };
    let faction = FactionBlueprint::from_asset(asset).unwrap();
    World::new(PlayerSettings { team: Team::Red, faction })
}

fn soldier(team: Team, health: i32) -> Components {
    let mut c = Components::new();
    c.team = Some(team);
    c.health = Some(Health { max_health: 5, health });
    c.attack_stats = Some(AttackStats::new(1, 2_000, 16_000));
    c
}

#[test]
fn the_depleted_die() {
    let mut world = empty_world();
    let hale = world.spawn(soldier(Team::Red, 1), None).unwrap();
    let spent = world.spawn(soldier(Team::Blue, 0), None).unwrap();
    let overkilled = world.spawn(soldier(Team::Blue, -3), None).unwrap();
    let dead = world.check_death();
    assert_eq!(dead, vec![spent, overkilled]);
    assert!(world.is_alive(hale));
    assert!(!world.is_alive(spent));
    assert!(!world.is_alive(overkilled));
    assert_eq!(world.components(spent), Components::cleared());
    assert_eq!(world.len(), 3);
}

#[test]
fn death_needs_a_team() {
    let mut world = empty_world();
    let mut c = soldier(Team::Red, 0);
    c.team = None;
    let teamless = world.spawn(c, None).unwrap();
    assert_eq!(world.check_death(), vec![]);
    assert!(world.is_alive(teamless));
}

#[test]
fn death_takes_what_is_attached() {
    let mut world = empty_world();
    let owner = world.spawn(soldier(Team::Red, 0), None).unwrap();
    let mut label = Components::new();
    label.parent = Some(owner);
    let label = world.spawn(label, None).unwrap();
    let mut badge = Components::new();
    badge.parent = Some(label);
    let badge = world.spawn(badge, None).unwrap();
    let bystander = world.spawn(soldier(Team::Red, 5), None).unwrap();
    assert_eq!(world.check_death(), vec![owner, label, badge]);
    assert!(!world.is_alive(label));
    assert!(!world.is_alive(badge));
    assert!(world.is_alive(bystander));
}

#[test]
fn the_dead_perceive_nothing() {
    let mut world = empty_world();
    let seen = InVision { friendlies: vec![Entity(5)], enemies: vec![Entity(6)] };
    let spent = world.spawn(soldier(Team::Blue, 0), Some(seen)).unwrap();
    assert!(world.in_vision(spent).is_some());
    world.check_death();
    assert!(world.in_vision(spent).is_none());
}

#[test]
fn death_cascades_into_targeting() {
    let mut world = empty_world();
    let victim = world.spawn(soldier(Team::Blue, 1), None).unwrap();
    let mut c = soldier(Team::Red, 5);
    c.attack_target = Some(AttackTarget(victim));
    let attacker = world.spawn(c, None).unwrap();

    world.attack_target(16_667);
    assert_eq!(world.components(victim).health.unwrap().health, 0);
    assert_eq!(world.check_death(), vec![victim]);
    assert!(!world.is_alive(victim));
    assert_eq!(world.components(attacker).attack_target, Some(AttackTarget(victim)));
    world.find_attack_target();
    assert_eq!(world.components(attacker).attack_target, None);
}

#[test]
fn despawn_removes_one_entity_and_what_is_attached() {
    let mut world = empty_world();
    let a = world.spawn(soldier(Team::Red, 5), None).unwrap();
    let b = world.spawn(soldier(Team::Red, 5), None).unwrap();
    let mut attached = Components::new();
    attached.parent = Some(b);
    let c = world.spawn(attached, None).unwrap();
    assert_eq!(world.despawn(b), vec![b, c]);
    assert!(world.is_alive(a));
    assert_eq!(world.despawn(b), vec![]);
    assert_eq!(world.despawn(Entity(99)), vec![]);
}

#[test]
fn identifiers_are_never_reused() {
    let mut world = empty_world();
    let a = world.spawn(soldier(Team::Red, 5), None).unwrap();
    world.despawn(a);
    let b = world.spawn(soldier(Team::Red, 5), None).unwrap();
    assert_eq!(a, Entity(0));
    assert_eq!(b, Entity(1));
    assert!(!world.is_alive(a));
    assert_eq!(Entity::from_bits(b.to_bits()), b);
}

#[test]
fn the_world_refuses_components_that_break_it() {
    let mut world = empty_world();
    let mut dead = Components::new();
    dead.alive = false;
    assert_eq!(world.spawn(dead, None), None);
    let mut orphan = Components::new();
    orphan.parent = Some(Entity(3));
    assert_eq!(world.spawn(orphan, None), None);
    let mut own_parent = Components::new();
    own_parent.parent = Some(Entity(0));
    assert_eq!(world.spawn(own_parent, None), None);
    let mut spawner = Components::new();
    spawner.unit_spawner = Some(castle_fight::unit_spawning::UnitSpawner::new(1, 0));
    assert_eq!(world.spawn(spawner, None), None);
    assert_eq!(world.len(), 0);

    let a = world.spawn(Components::new(), None).unwrap();
    assert!(!world.update(a, dead));
    assert!(!world.update(Entity(9), Components::new()));
    assert!(!world.set_in_vision(Entity(9), None));
    assert!(world.set_in_vision(a, Some(InVision::new())));
    assert!(world.in_vision(a).is_some());
}

#[test]
fn a_castle_comes_with_its_collider() {
    let mut world = empty_world();
    let bundle = CastleBundle::from_fields("BLUE", 10).unwrap();
    assert_eq!(bundle.team, Team::Blue);
    assert_eq!(bundle.health, Health { max_health: 10, health: 10 });
    assert_eq!(CastleBundle::from_fields("PURPLE", 10), None);
    let (castle, collider) = world.process_castle(bundle, 64_000, -64_000);
    let c = world.components(castle);
    assert!(c.castle && c.building);
    assert_eq!(c.team, Some(Team::Blue));
    assert_eq!(world.components(collider).parent, Some(castle));

    let mut razed = world.components(castle);
    razed.health = Some(Health { max_health: 10, health: 0 });
    assert!(world.update(castle, razed));
    assert_eq!(world.check_death(), vec![castle, collider]);
}

#[test]
fn waypoint_links_resolve_by_level_id() {
    let level = vec![
        (Entity(4), "aaa".to_string()),
        (Entity(5), "bbb".to_string()),
        (Entity(6), "bbb".to_string()),
    ];
    let to_b = UnresolvedNextWaypointRef::from_field(Some("bbb".to_string()));
    assert_eq!(
        resolve_next_waypoint(&to_b, &level).unwrap(),
        Waypoint { next_waypoint: Some(Entity(5)) }
    );
    let end = UnresolvedNextWaypointRef::from_field(None);
    assert_eq!(resolve_next_waypoint(&end, &level).unwrap(), Waypoint { next_waypoint: None });
    assert_eq!(
        resolve_next_waypoint(&UnresolvedNextWaypointRef::default(), &level).unwrap(),
        Waypoint { next_waypoint: None }
    );
    let nowhere = UnresolvedNextWaypointRef::from_field(Some("zzz".to_string()));
    assert_eq!(resolve_next_waypoint(&nowhere, &level).unwrap_err().iid, "zzz");
}

#[test]
fn waypoint_links_are_written_into_the_world() {
    let mut world = empty_world();
    let team = TeamAssociation(Team::Red);
    let a = world.add_start_waypoints_to_resources(0, 0, team, IsStartPoint(true), None);
    let b = world.add_start_waypoints_to_resources(9, 9, team, IsStartPoint(false), None);
    let level = vec![(a, "aaa".to_string()), (b, "bbb".to_string())];
    let to_b = UnresolvedNextWaypointRef(Some("bbb".to_string()));
    assert!(world.resolve_next_waypoint_references(a, &to_b, &level).is_ok());
    assert_eq!(world.components(a).waypoint, Some(Waypoint { next_waypoint: Some(b) }));
    let nowhere = UnresolvedNextWaypointRef(Some("ccc".to_string()));
    let failed = world.resolve_next_waypoint_references(b, &nowhere, &level);
    assert_eq!(failed.unwrap_err().iid, "ccc");
    assert_eq!(world.components(b).waypoint, Some(Waypoint { next_waypoint: None }));
}
