use castle_fight::attack::{
    resolve_target, AttackStats, AttackTarget, CombatOutcome, CombatPhase,
};
use castle_fight::entity::Entity;
use castle_fight::health::Health;
use castle_fight::load_factions::{FactionAsset, FactionBlueprint};
use castle_fight::resources::PlayerSettings;
use castle_fight::teams::Team;
use castle_fight::vision::InVision;
use castle_fight::world::{Components, World};

fn empty_world() -> World {
    let asset = FactionAsset {
        id: "humans".to_string(),
        name: "Humans".to_string(),
        buildings: vec![],
        units: vec![],
    };
    let faction = FactionBlueprint::from_asset(asset).unwrap();
    World::new(PlayerSettings { team: Team::Red, faction })
}

fn soldier(team: Team, health: i32) -> Components {
    let mut c = Components::new();
    c.team = Some(team);
    c.health = Some(Health { max_health: health, health });
    c.attack_stats = Some(AttackStats::new(1, 2_000, 16_000));
    c
}

fn seeing(enemies: Vec<Entity>) -> Option<InVision> {
    Some(InVision { friendlies: vec![], enemies })
}

#[test]
fn targeting_takes_the_first_enemy() {
    let mut world = empty_world();
    let e1 = world.spawn(soldier(Team::Blue, 5), None).unwrap();
    let e2 = world.spawn(soldier(Team::Blue, 5), None).unwrap();
    let hunter = world.spawn(soldier(Team::Red, 5), seeing(vec![e1, e2])).unwrap();
    world.find_attack_target();
    assert_eq!(world.components(hunter).attack_target, Some(AttackTarget(e1)));
    assert_eq!(world.components(e1).attack_target, None);
}

#[test]
fn targeting_takes_the_first_enemy_whatever_the_second() {
    let mut world = empty_world();
    let e1 = world.spawn(soldier(Team::Blue, 5), None).unwrap();
    let never_spawned = Entity(77);
    let hunter = world.spawn(soldier(Team::Red, 5), seeing(vec![e1, never_spawned])).unwrap();
    world.find_attack_target();
    assert_eq!(world.components(hunter).attack_target, Some(AttackTarget(e1)));
}

#[test]
fn targeting_needs_attack_stats_and_enemies() {
    let mut world = empty_world();
    let e1 = world.spawn(soldier(Team::Blue, 5), None).unwrap();
    let mut unarmed = soldier(Team::Red, 5);
    unarmed.attack_stats = None;
    let watcher = world.spawn(unarmed, seeing(vec![e1])).unwrap();
    let bored = world.spawn(soldier(Team::Red, 5), seeing(vec![])).unwrap();
    let blind = world.spawn(soldier(Team::Red, 5), None).unwrap();
    world.find_attack_target();
    assert_eq!(world.components(watcher).attack_target, None);
    assert_eq!(world.components(bored).attack_target, None);
    assert_eq!(world.components(blind).attack_target, None);
}

#[test]
fn targeting_keeps_a_living_target() {
    let mut world = empty_world();
    let e1 = world.spawn(soldier(Team::Blue, 5), None).unwrap();
    let e2 = world.spawn(soldier(Team::Blue, 5), None).unwrap();
    let mut c = soldier(Team::Red, 5);
    c.attack_target = Some(AttackTarget(e2));
    let hunter = world.spawn(c, seeing(vec![e1, e2])).unwrap();
    world.find_attack_target();
    assert_eq!(world.components(hunter).attack_target, Some(AttackTarget(e2)));
}

#[test]
fn an_empty_sight_clears_no_target() {
    let mut world = empty_world();
    let e1 = world.spawn(soldier(Team::Blue, 5), None).unwrap();
    let mut c = soldier(Team::Red, 5);
    c.attack_target = Some(AttackTarget(e1));
    let hunter = world.spawn(c, seeing(vec![])).unwrap();
    world.find_attack_target();
    assert_eq!(world.components(hunter).attack_target, Some(AttackTarget(e1)));
}

#[test]
fn targeting_drops_a_destroyed_target() {
    let mut world = empty_world();
    let e1 = world.spawn(soldier(Team::Blue, 5), None).unwrap();
    let mut c = soldier(Team::Red, 5);
    c.attack_target = Some(AttackTarget(e1));
    let hunter = world.spawn(c, seeing(vec![])).unwrap();
    world.despawn(e1);
    world.find_attack_target();
    assert_eq!(world.components(hunter).attack_target, None);
}

#[test]
fn targeting_drops_a_target_without_health() {
    let mut world = empty_world();
    let mut rock = Components::new();
    rock.team = Some(Team::Blue);
    let e1 = world.spawn(rock, None).unwrap();
    let mut c = soldier(Team::Red, 5);
    c.attack_target = Some(AttackTarget(e1));
    let hunter = world.spawn(c, None).unwrap();
    world.find_attack_target();
    assert_eq!(world.components(hunter).attack_target, None);
}

#[test]
fn resolve_target_by_cases() {
    let e1 = Entity(1);
    let e2 = Entity(2);
    assert_eq!(resolve_target(None, false, &vec![e1, e2]), Some(AttackTarget(e1)));
    assert_eq!(resolve_target(None, true, &vec![]), None);
    assert_eq!(resolve_target(Some(AttackTarget(e2)), true, &vec![e1]), Some(AttackTarget(e2)));
    assert_eq!(resolve_target(Some(AttackTarget(e2)), false, &vec![e1]), None);
}

#[test]
fn a_ready_attacker_hits_and_cools_down() {
    let mut world = empty_world();
    let victim = world.spawn(soldier(Team::Blue, 5), None).unwrap();
    let mut c = soldier(Team::Red, 5);
    c.attack_target = Some(AttackTarget(victim));
    let attacker = world.spawn(c, None).unwrap();

    world.attack_target(16_667);
    assert_eq!(world.components(victim).health, Some(Health { max_health: 5, health: 4 }));
    let stats = world.components(attacker).attack_stats.unwrap();
    // Two attacks per second: half a second of cooldown.
    assert_eq!(stats.time_till_next_attack, 500_000);

    world.attack_target(100_000);
    assert_eq!(world.components(victim).health, Some(Health { max_health: 5, health: 4 }));
    let stats = world.components(attacker).attack_stats.unwrap();
    assert_eq!(stats.time_till_next_attack, 400_000);
}

#[test]
fn the_next_hit_lands_once_the_cooldown_has_run_out() {
    let mut world = empty_world();
    let victim = world.spawn(soldier(Team::Blue, 5), None).unwrap();
    let mut c = soldier(Team::Red, 5);
    c.attack_target = Some(AttackTarget(victim));
    let attacker = world.spawn(c, None).unwrap();
    world.attack_target(0);
    let mut hits_seen = vec![];
    for _ in 0..6 {
        world.attack_target(100_000);
        hits_seen.push(world.components(victim).health.unwrap().health);
    }
    // Five passes run the cooldown down to zero, the sixth hits.
    assert_eq!(hits_seen, vec![4, 4, 4, 4, 4, 3]);
    assert_eq!(world.components(attacker).attack_stats.unwrap().time_till_next_attack, 500_000);
}

#[test]
fn a_paused_clock_cools_nothing() {
    let mut world = empty_world();
    let victim = world.spawn(soldier(Team::Blue, 5), None).unwrap();
    let mut c = soldier(Team::Red, 5);
    c.attack_target = Some(AttackTarget(victim));
    let mut stats = AttackStats::new(1, 2_000, 16_000);
    stats.time_till_next_attack = 300;
    c.attack_stats = Some(stats);
    let attacker = world.spawn(c, None).unwrap();
    world.attack_target(0);
    assert_eq!(world.components(attacker).attack_stats.unwrap().time_till_next_attack, 300);
    assert_eq!(world.components(victim).health.unwrap().health, 5);
}

#[test]
fn a_lost_target_is_given_up_without_a_new_cooldown() {
    let mut world = empty_world();
    let mut c = soldier(Team::Red, 5);
    c.attack_target = Some(AttackTarget(Entity(40)));
    let attacker = world.spawn(c, None).unwrap();
    world.attack_target(16_667);
    let after = world.components(attacker);
    assert_eq!(after.attack_target, None);
    assert_eq!(after.attack_stats.unwrap().time_till_next_attack, 0);
}

#[test]
fn attackers_hit_in_entity_order() {
    let mut world = empty_world();
    let victim = world.spawn(soldier(Team::Blue, 5), None).unwrap();
    for _ in 0..3 {
        let mut c = soldier(Team::Red, 5);
        c.attack_target = Some(AttackTarget(victim));
        world.spawn(c, None).unwrap();
    }
    world.attack_target(16_667);
    assert_eq!(world.components(victim).health.unwrap().health, 2);
}

#[test]
fn both_sides_of_a_duel_hit_in_the_same_pass() {
    let mut world = empty_world();
    let mut first = soldier(Team::Blue, 1);
    first.attack_target = Some(AttackTarget(Entity(1)));
    let mut second = soldier(Team::Red, 1);
    second.attack_target = Some(AttackTarget(Entity(0)));
    let a = world.spawn(first, None).unwrap();
    let b = world.spawn(second, None).unwrap();
    world.attack_target(16_667);
    // The first drops the second to zero, and the second still hits back.
    assert_eq!(world.components(a).health.unwrap().health, 0);
    assert_eq!(world.components(b).health.unwrap().health, 0);
}

#[test]
fn combat_step_by_cases() {
    let mut stats = AttackStats::new(3, 4_000, 16_000);
    assert_eq!(stats.phase(false), CombatPhase::Idle);
    assert_eq!(stats.phase(true), CombatPhase::Ready);
    assert_eq!(stats.step(10, true), CombatOutcome::Struck(3));
    assert_eq!(stats.time_till_next_attack, 250_000);
    assert_eq!(stats.phase(true), CombatPhase::Cooling);
    assert_eq!(stats.step(250_001, true), CombatOutcome::Cooled);
    assert_eq!(stats.time_till_next_attack, -1);
    assert_eq!(stats.step(10, false), CombatOutcome::TargetLost);
    assert_eq!(stats.time_till_next_attack, -1);
}

#[test]
fn cooldown_is_a_second_over_the_speed() {
    assert_eq!(AttackStats::new(1, 2_000, 0).cooldown(), 500_000);
    assert_eq!(AttackStats::new(1, 1_000, 0).cooldown(), 1_000_000);
    assert_eq!(AttackStats::new(1, 3_000, 0).cooldown(), 333_333);
    assert_eq!(AttackStats::new(1, 1, 0).cooldown(), 1_000_000_000);
    assert_eq!(AttackStats::new(1, u32::MAX, 0).cooldown(), 0);
    assert_eq!(AttackStats::new(1, 0, 0).cooldown(), i64::MAX);
}

#[test]
fn damage_is_a_flat_subtraction() {
    let mut health = Health::from_field(10);
    assert_eq!(health, Health { max_health: 10, health: 10 });
    health.take_damage(3);
    assert_eq!(health, Health { max_health: 10, health: 7 });
    assert!(!health.is_depleted());
    health.take_damage(9);
    assert_eq!(health.health, -2);
    assert!(health.is_depleted());
    health.take_damage(-5);
    assert_eq!(health.health, 3);
    assert_eq!(Health::default(), Health { max_health: 0, health: 0 });
    assert!(Health::default().is_depleted());
}

#[test]
fn damage_stops_at_the_limits_of_the_number_type() {
    let mut health = Health { max_health: 5, health: i32::MIN + 1 };
    health.take_damage(10);
    assert_eq!(health.health, i32::MIN);
    let mut health = Health { max_health: 5, health: i32::MAX };
    health.take_damage(-1);
    assert_eq!(health.health, i32::MAX);
}
