//! Laws of the simulation, each proved of every world that it speaks of.

use vstd::prelude::*;
use crate::attack::{cooldown_period, AttackStats, AttackTarget, CombatOutcome};
use crate::entity::Entity;
use crate::health::Health;
use crate::load_factions::ComponentBlueprint;
use crate::movement::{arrived, MoveTarget, WaypointFollower};
use crate::spawning::{composed_upto, with_component};
use crate::unit_spawning::UnitSpawner;
use crate::vision::{
    in_range, is_enemy, is_friend, law_perceived_enemies, law_perceived_friends, law_range_query,
    sighting_of,
};
use crate::world::{Components, WorldState};

verus! {

/// After the perception pass a perceiver's friends are exactly the other
/// entities of its team in range, and its enemies exactly the visible
/// entities of other teams in range. Nobody is both, and nobody perceives
/// itself; what was perceived before plays no part.
pub proof fn law_perception_partition(state: WorldState, i: int)
    requires
        state.wf(),
        0 <= i < state.len(),
        state.len() <= u64::MAX,
        state.perceives(i),
    ensures
        ({
            let seen = state.watched().in_vision[i]->0;
            let own = state.entities[i];
            forall|e: Entity|
                #![trigger seen.friendlies.contains(e)]
                #![trigger seen.enemies.contains(e)]
                {
                    let found = e.index() < state.len() && in_range(
                        state.entities,
                        own.position->0,
                        own.vision_range->0,
                        e.index(),
                    );
                    let other = state.entities[e.index()];
                    &&& seen.friendlies.contains(e) <==> found && e.index() != i && other.team
                        == own.team
                    &&& seen.enemies.contains(e) <==> found && other.team != own.team
                        && other.visible
                    &&& !(seen.friendlies.contains(e) && seen.enemies.contains(e))
                    &&& e.index() == i ==> !seen.friendlies.contains(e) && !seen.enemies.contains(e)
                }
        }),
{
    let own = state.entities[i];
    let viewer = Entity(i as u64);
    let team = own.team->0;
    let sightings = state.within_distance(own.position->0, own.vision_range->0);
    let seen = state.watched().in_vision[i]->0;
    law_range_query(state.entities, own.position->0, own.vision_range->0, state.len() as int);
    law_perceived_friends(viewer, team, sightings);
    law_perceived_enemies(viewer, team, sightings);
    assert forall|e: Entity|
        #![trigger seen.friendlies.contains(e)]
        #![trigger seen.enemies.contains(e)]
        {
            let found = e.index() < state.len() && in_range(
                state.entities,
                own.position->0,
                own.vision_range->0,
                e.index(),
            );
            let other = state.entities[e.index()];
            &&& seen.friendlies.contains(e) <==> found && e.index() != i && other.team == own.team
            &&& seen.enemies.contains(e) <==> found && other.team != own.team && other.visible
            &&& !(seen.friendlies.contains(e) && seen.enemies.contains(e))
            &&& e.index() == i ==> !seen.friendlies.contains(e) && !seen.enemies.contains(e)
        } by {
        let found = e.index() < state.len() && in_range(
            state.entities,
            own.position->0,
            own.vision_range->0,
            e.index(),
        );
        if found {
            let a = choose|a: int|
                0 <= a < sightings.len() && (#[trigger] sightings[a]).entity.index() == e.index();
            assert(sightings[a].entity == e);
            assert(sightings[a] == sighting_of(state.entities, e.index()));
        }
        if seen.friendlies.contains(e) {
            let k = choose|k: int|
                0 <= k < sightings.len() && #[trigger] sightings[k].entity == e
                    && is_friend(viewer, team, sightings[k]);
            assert(sightings[k] == sighting_of(state.entities, e.index()));
        }
        if seen.enemies.contains(e) {
            let k = choose|k: int|
                0 <= k < sightings.len() && #[trigger] sightings[k].entity == e
                    && is_enemy(viewer, team, sightings[k]);
            assert(sightings[k] == sighting_of(state.entities, e.index()));
        }
    }
}

/// A combatant without a target that perceives enemies holds the first of
/// them as its target after the targeting pass, whoever the others are.
pub proof fn law_targeting_acquisition(state: WorldState, i: int)
    requires
        state.wf(),
        0 <= i < state.len(),
        state.entities[i].attack_stats is Some,
        state.entities[i].attack_target is None,
        state.in_vision[i] is Some,
        state.in_vision[i]->0.enemies.len() > 0,
    ensures
        state.targeted().entities[i].attack_target == Some(
            AttackTarget(state.in_vision[i]->0.enemies[0]),
        ),
{
}

/// A combatant whose target resolves to no hit points, because the target
/// lost them or was destroyed, holds no target after the targeting pass.
pub proof fn law_targeting_loss(state: WorldState, i: int, target: Entity)
    requires
        state.wf(),
        0 <= i < state.len(),
        state.entities[i].attack_stats is Some,
        state.entities[i].attack_target == Some(AttackTarget(target)),
        state.components(target).health is None,
    ensures
        state.targeted().entities[i].attack_target is None,
{
}

/// A destroyed entity resolves to no hit points.
pub proof fn law_destroyed_has_no_health(state: WorldState, target: Entity)
    requires
        state.wf(),
        !state.alive(target),
    ensures
        state.components(target).health is None,
{
}

/// The combat step of a ready attacker whose target has hit points takes
/// `damage` off the target's hit points, limited only by the range of the
/// number type, and sets the attacker's cooldown to one second divided by
/// its attack speed.
pub proof fn law_ready_attacker_strikes(state: WorldState, i: int, target: Entity, dt: u32)
    requires
        state.wf(),
        0 <= i < state.len(),
        state.entities[i].attack_stats is Some,
        state.entities[i].attack_stats->0.ready(),
        state.entities[i].attack_target == Some(AttackTarget(target)),
        state.components(target).health is Some,
        target.index() != i,
    ensures
        ({
            let stats = state.entities[i].attack_stats->0;
            let next = state.fought_one(i, dt);
            &&& next.components(target).health == Some(
                state.components(target).health->0.damaged(stats.damage as int),
            )
            &&& next.entities[i].attack_stats->0.time_till_next_attack == cooldown_period(
                stats.attack_speed,
            )
            &&& next.entities[i].attack_target == Some(AttackTarget(target))
        }),
{
}

/// The combat step of an attacker whose cooldown runs changes nobody's hit
/// points and nobody's target: it only takes `dt` off the cooldown.
pub proof fn law_cooling_attacker_waits(state: WorldState, i: int, dt: u32)
    requires
        state.wf(),
        0 <= i < state.len(),
        state.entities[i].attack_stats is Some,
        state.entities[i].attack_target is Some,
        !state.entities[i].attack_stats->0.ready(),
    ensures
        ({
            let stats = state.entities[i].attack_stats->0;
            let next = state.fought_one(i, dt);
            &&& forall|j: int|
                0 <= j < state.len() ==> (#[trigger] next.entities[j]).health
                    == state.entities[j].health
            &&& forall|j: int|
                0 <= j < state.len() ==> (#[trigger] next.entities[j]).attack_target
                    == state.entities[j].attack_target
            &&& next.entities[i].attack_stats->0.time_till_next_attack
                == stats.time_till_next_attack - dt
        }),
{
}

/// An attacker that has just hit, with a cooldown longer than the next
/// tick, does not hit again in that tick.
pub proof fn law_no_second_strike(stats: AttackStats, dt: u32)
    requires
        stats.ready(),
        dt < cooldown_period(stats.attack_speed),
    ensures
        stats.rearmed().outcome(true) == CombatOutcome::Cooled,
        !stats.rearmed().cooled(dt).ready(),
{
}

/// A walker on a path that has not arrived at its current waypoint keeps
/// heading for it through the waypoint phase.
pub proof fn law_follower_keeps_waypoint(state: WorldState, i: int, waypoint: Entity)
    requires
        state.wf(),
        0 <= i < state.len(),
        state.entities[i].attack_target is None,
        state.entities[i].position is Some,
        state.entities[i].waypoint_follower == Some(WaypointFollower { waypoint }),
        state.entities[i].move_target == Some(MoveTarget(waypoint)),
        state.waypoint_sight(waypoint) matches Some(sight) ==> !arrived(
            state.entities[i].position->0,
            sight.position,
        ),
    ensures
        state.waypoint_synced().entities[i].waypoint_follower == Some(
            WaypointFollower { waypoint },
        ),
        state.waypoint_synced().entities[i].move_target == Some(MoveTarget(waypoint)),
{
}

/// A walker on a path that has arrived at its current waypoint heads for the
/// next waypoint after the waypoint phase, follower and move target alike.
pub proof fn law_follower_advances(state: WorldState, i: int, waypoint: Entity, next: Entity)
    requires
        state.wf(),
        0 <= i < state.len(),
        state.entities[i].attack_target is None,
        state.entities[i].position is Some,
        state.entities[i].waypoint_follower == Some(WaypointFollower { waypoint }),
        state.entities[i].move_target == Some(MoveTarget(waypoint)),
        state.waypoint_sight(waypoint) is Some,
        state.waypoint_sight(waypoint)->0.waypoint.next_waypoint == Some(next),
        arrived(state.entities[i].position->0, state.waypoint_sight(waypoint)->0.position),
    ensures
        state.waypoint_synced().entities[i].waypoint_follower == Some(
            WaypointFollower { waypoint: next },
        ),
        state.waypoint_synced().entities[i].move_target == Some(MoveTarget(next)),
{
}

/// A walker that has arrived at the last waypoint of its path neither
/// follows a path nor has a move target after the waypoint phase.
pub proof fn law_path_completion(state: WorldState, i: int, waypoint: Entity)
    requires
        state.wf(),
        0 <= i < state.len(),
        state.entities[i].attack_target is None,
        state.entities[i].position is Some,
        state.entities[i].waypoint_follower == Some(WaypointFollower { waypoint }),
        state.entities[i].move_target == Some(MoveTarget(waypoint)),
        state.waypoint_sight(waypoint) is Some,
        state.waypoint_sight(waypoint)->0.waypoint.next_waypoint is None,
        arrived(state.entities[i].position->0, state.waypoint_sight(waypoint)->0.position),
    ensures
        state.waypoint_synced().entities[i].waypoint_follower is None,
        state.waypoint_synced().entities[i].move_target is None,
{
}

/// An entity without path, move target, walk command and attack target is
/// where it was after the four phases of movement, and still without them.
pub proof fn law_stopped_walker_stays(state: WorldState, i: int, dt: u32)
    requires
        state.wf(),
        0 <= i < state.len(),
        state.entities[i].attack_target is None,
        state.entities[i].waypoint_follower is None,
        state.entities[i].move_target is None,
        state.entities[i].move_to_point is None,
    ensures
        state.attack_synced().waypoint_synced().sought().walked(dt).entities[i]
            == state.entities[i],
{
}

/// An opponent follower with an attack target walks towards that target
/// after the attack and waypoint phases of movement, in whichever order they
/// run and whatever path it follows.
pub proof fn law_attack_overrides_waypoint(state: WorldState, i: int, target: Entity)
    requires
        state.wf(),
        0 <= i < state.len(),
        state.entities[i].opponent_follower,
        state.entities[i].attack_target == Some(AttackTarget(target)),
    ensures
        state.attack_synced().waypoint_synced().entities[i].move_target == Some(MoveTarget(target)),
        state.waypoint_synced().attack_synced().entities[i].move_target == Some(MoveTarget(target)),
{
}

/// An entity of a team whose hit points are used up does not exist after the
/// lifecycle pass, and a combatant that held it as its target holds no
/// target after one more targeting pass.
pub proof fn law_death_cascade(state: WorldState, i: int, j: int)
    requires
        state.wf(),
        0 <= i < state.len(),
        0 <= j < state.len(),
        i <= u64::MAX,
        state.entities[i].alive,
        state.entities[i].team is Some,
        state.entities[i].health is Some,
        state.entities[i].health->0.health <= 0,
        state.buried().entities[j].attack_stats is Some,
        state.buried().entities[j].attack_target == Some(AttackTarget(Entity(i as u64))),
    ensures
        !state.buried().alive(Entity(i as u64)),
        state.buried().targeted().entities[j].attack_target is None,
{
    assert(state.dies(i));
    assert(state.death_marks()[i]);
    assert(state.doomed(state.death_marks(), i));
}

/// Whatever is attached to an entity that the lifecycle pass destroys is
/// destroyed with it.
pub proof fn law_death_takes_attached(state: WorldState, parent: int, child: int)
    requires
        state.wf(),
        0 <= parent < child < state.len(),
        parent <= u64::MAX,
        state.entities[child].parent == Some(Entity(parent as u64)),
        state.dies(parent),
    ensures
        !state.buried().entities[child].alive,
{
    assert(state.death_marks()[parent]);
    assert(state.doomed(state.death_marks(), parent));
    if state.entities[child].alive {
        assert(state.doomed(state.death_marks(), child));
    }
}

/// A spawner with time left only runs down; one without produces a unit
/// and starts its next period at once.
pub proof fn law_spawner_cadence(spawner: UnitSpawner, dt: u32)
    ensures
        spawner.time_left > 0 ==> spawner.ticked(dt).time_left == spawner.time_left - dt
            && !spawner.due(),
        spawner.time_left <= 0 ==> spawner.ticked(dt).time_left == spawner.spawn_time
            && spawner.due(),
        spawner.ticked(dt).spawn_time == spawner.spawn_time,
        spawner.ticked(dt).unit_blueprint == spawner.unit_blueprint,
{
}

/// The combat pass neither creates nor destroys an entity.
pub proof fn law_combat_keeps_entities(state: WorldState, k: int, dt: u32)
    requires
        0 <= k <= state.len(),
    ensures
        state.fought_upto(k, dt).len() == state.len(),
        forall|i: int|
            0 <= i < state.len() ==> (#[trigger] state.fought_upto(k, dt).entities[i]).alive
                == state.entities[i].alive,
    decreases k,
{
    if k > 0 {
        law_combat_keeps_entities(state, k - 1, dt);
        let before = state.fought_upto(k - 1, dt);
        let after = before.fought_one(k - 1, dt);
        assert forall|i: int| 0 <= i < state.len() implies (#[trigger] after.entities[i]).alive
            == state.entities[i].alive by {
            assert(before.entities[i].alive == state.entities[i].alive);
        }
    }
}

/// What the first `k` combat steps make of each attacker, said without a
/// look at the steps before its own: the steps change hit points, but never
/// whether an entity has any, and they change an attacker only in its own
/// step.
pub proof fn law_combat_steps(state: WorldState, k: int, dt: u32)
    requires
        0 <= k <= state.len(),
    ensures
        state.fought_upto(k, dt).len() == state.len(),
        forall|j: int|
            0 <= j < state.len() ==> ((#[trigger] state.fought_upto(k, dt).entities[j]).health
                is Some) == (state.entities[j].health is Some),
        forall|j: int|
            k <= j < state.len() ==> (#[trigger] state.fought_upto(k, dt).entities[j]).attack_stats
                == state.entities[j].attack_stats && state.fought_upto(
                k,
                dt,
            ).entities[j].attack_target == state.entities[j].attack_target,
        forall|j: int|
            0 <= j < k ==> {
                let before = state.entities[j];
                let after = #[trigger] state.fought_upto(k, dt).entities[j];
                if before.attack_stats is Some && before.attack_target is Some {
                    let hit = state.target_has_health(j);
                    &&& after.attack_stats == Some(before.attack_stats->0.stepped(dt, hit))
                    &&& after.attack_target == if before.attack_stats->0.outcome(hit)
                        == CombatOutcome::TargetLost {
                        None
                    } else {
                        before.attack_target
                    }
                } else {
                    &&& after.attack_stats == before.attack_stats
                    &&& after.attack_target == before.attack_target
                }
            },
    decreases k,
{
    if k > 0 {
        law_combat_steps(state, k - 1, dt);
        let i = k - 1;
        let earlier = state.fought_upto(i, dt);
        let now = earlier.fought_one(i, dt);
        assert(earlier.entities[i].attack_stats == state.entities[i].attack_stats);
        assert(earlier.entities[i].attack_target == state.entities[i].attack_target);
        assert(earlier.target_has_health(i) == state.target_has_health(i)) by {
            if let Some(target) = state.entities[i].attack_target {
                if target.0.index() < state.len() {
                    assert((earlier.entities[target.0.index()].health is Some) == (
                    state.entities[target.0.index()].health is Some));
                }
            }
        }
        assert forall|j: int| 0 <= j < state.len() implies ((#[trigger] now.entities[j]).health
            is Some) == (state.entities[j].health is Some) by {
            assert((earlier.entities[j].health is Some) == (state.entities[j].health is Some));
        }
        assert forall|j: int| k <= j < state.len() implies (#[trigger] now.entities[j]).attack_stats
            == state.entities[j].attack_stats && now.entities[j].attack_target
            == state.entities[j].attack_target by {
            assert(earlier.entities[j].attack_stats == state.entities[j].attack_stats);
        }
        assert forall|j: int| 0 <= j < k implies {
            let before = state.entities[j];
            let after = #[trigger] now.entities[j];
            if before.attack_stats is Some && before.attack_target is Some {
                let hit = state.target_has_health(j);
                &&& after.attack_stats == Some(before.attack_stats->0.stepped(dt, hit))
                &&& after.attack_target == if before.attack_stats->0.outcome(hit)
                    == CombatOutcome::TargetLost {
                    None
                } else {
                    before.attack_target
                }
            } else {
                &&& after.attack_stats == before.attack_stats
                &&& after.attack_target == before.attack_target
            }
        } by {
            if j < i {
                let same = earlier.entities[j];
                assert(now.entities[j].attack_stats == same.attack_stats);
                assert(now.entities[j].attack_target == same.attack_target);
            }
        }
    }
}

/// The combat pass treats every attacker by the world as it was before the
/// pass: an attacker cools down, hits or gives its target up according to
/// its own cooldown and to whether its target had hit points then, whoever
/// came before it in the pass.
pub proof fn law_combat_attacker(state: WorldState, i: int, dt: u32)
    requires
        0 <= i < state.len(),
        state.entities[i].attack_stats is Some,
        state.entities[i].attack_target is Some,
    ensures
        ({
            let stats = state.entities[i].attack_stats->0;
            let hit = state.target_has_health(i);
            let after = state.fought(dt).entities[i];
            &&& after.attack_stats == Some(stats.stepped(dt, hit))
            &&& after.attack_target == if stats.outcome(hit) == CombatOutcome::TargetLost {
                None
            } else {
                state.entities[i].attack_target
            }
        }),
{
    law_combat_steps(state, state.len() as int, dt);
}

/// The spawner pass leaves every entity that existed before it as it was,
/// but for its spawner; all that it adds comes after them.
pub proof fn law_spawners_only_add(state: WorldState, k: int, dt: u32)
    requires
        0 <= k <= state.len(),
    ensures
        state.spawned_upto(k, dt).len() >= state.len(),
        forall|i: int|
            0 <= i < state.len() ==> #[trigger] state.spawned_upto(k, dt).entities[i]
                == (Components {
                unit_spawner: state.spawned_upto(k, dt).entities[i].unit_spawner,
                ..state.entities[i]
            }),
    decreases k,
{
    if k > 0 {
        law_spawners_only_add(state, k - 1, dt);
        let before = state.spawned_upto(k - 1, dt);
        let after = before.spawned_one(k - 1, dt);
        assert forall|i: int| 0 <= i < state.len() implies #[trigger] after.entities[i]
            == (Components {
            unit_spawner: after.entities[i].unit_spawner,
            ..state.entities[i]
        }) by {
            assert(before.entities[i] == (Components {
                unit_spawner: before.entities[i].unit_spawner,
                ..state.entities[i]
            }));
        }
    }
}

/// Whoever of a team is left without hit points by the combat of a tick does
/// not exist when the tick is over.
pub proof fn law_tick_buries_the_dead(state: WorldState, dt: u32, i: int)
    requires
        state.wf(),
        0 <= i < state.len(),
        ({
            let fought = state.perception_ticked(
                dt,
            ).targeted().attack_synced().waypoint_synced().sought().walked(dt).fought(dt);
            fought.entities[i].alive && fought.entities[i].team is Some
                && fought.entities[i].health is Some && fought.entities[i].health->0.health <= 0
        }),
    ensures
        !state.ticked(dt).entities[i].alive,
{
    let walked = state.perception_ticked(
        dt,
    ).targeted().attack_synced().waypoint_synced().sought().walked(dt);
    let fought = walked.fought(dt);
    law_combat_keeps_entities(walked, walked.len() as int, dt);
    assert(fought.dies(i));
    assert(fought.death_marks()[i]);
    assert(fought.doomed(fought.death_marks(), i));
    let buried = fought.buried();
    assert(!buried.entities[i].alive);
    law_spawners_only_add(buried, buried.len() as int, dt);
}

/// While a spawner's time has not run out it produces nothing: after `n`
/// ticks that together are shorter than the time left, that much time is
/// gone and no unit was due in any of them.
pub proof fn law_spawner_counts_down(spawner: UnitSpawner, dt: u32, n: nat)
    requires
        n * dt < spawner.time_left,
    ensures
        spawner.ticked_times(dt, n).time_left == spawner.time_left - n * dt,
        !spawner.ticked_times(dt, n).due(),
        forall|k: nat| k < n ==> !(#[trigger] spawner.ticked_times(dt, k)).due(),
    decreases n,
{
    if n > 0 {
        let m = (n - 1) as nat;
        assert(m * dt <= n * dt) by (nonlinear_arith)
            requires
                m <= n,
                dt >= 0,
        ;
        assert(n * dt == m * dt + dt) by (nonlinear_arith)
            requires
                n == m + 1,
        ;
        law_spawner_counts_down(spawner, dt, m);
        assert forall|k: nat| k < n implies !(#[trigger] spawner.ticked_times(dt, k)).due() by {
            if k < m {
            } else {
                assert(k == m);
            }
        }
    }
}

/// A spawner produces exactly one unit per period: where `n` ticks are the
/// fewest that use its time up, no unit is due in any of them, the tick
/// after them produces one, and the time left is a full period again.
pub proof fn law_spawner_period(spawner: UnitSpawner, dt: u32, n: nat)
    requires
        n >= 1,
        (n - 1) * dt < spawner.time_left <= n * dt,
    ensures
        forall|k: nat| k < n ==> !(#[trigger] spawner.ticked_times(dt, k)).due(),
        spawner.ticked_times(dt, n).due(),
        spawner.ticked_times(dt, n + 1).time_left == spawner.spawn_time,
        spawner.ticked_times(dt, n + 1).unit_blueprint == spawner.unit_blueprint,
{
    let m = (n - 1) as nat;
    law_spawner_counts_down(spawner, dt, m);
    assert(n * dt == m * dt + dt) by (nonlinear_arith)
        requires
            n == m + 1,
    ;
    assert(spawner.ticked_times(dt, n) == spawner.ticked_times(dt, m).ticked(dt));
    assert(spawner.ticked_times(dt, n + 1) == spawner.ticked_times(dt, n).ticked(dt));
    law_spawner_keeps_blueprint(spawner, dt, n + 1);
}

/// Ticks change neither the period of a spawner nor what it spawns.
pub proof fn law_spawner_keeps_blueprint(spawner: UnitSpawner, dt: u32, n: nat)
    ensures
        spawner.ticked_times(dt, n).spawn_time == spawner.spawn_time,
        spawner.ticked_times(dt, n).unit_blueprint == spawner.unit_blueprint,
    decreases n,
{
    if n > 0 {
        law_spawner_keeps_blueprint(spawner, dt, (n - 1) as nat);
    }
}

/// After a hit the attacker waits out its cooldown: in `n` further combat
/// steps that together are shorter than the cooldown it does not hit again,
/// whatever its target.
pub proof fn law_cooldown_holds(stats: AttackStats, dt: u32, n: nat)
    requires
        stats.ready(),
        n * dt < cooldown_period(stats.attack_speed),
    ensures
        forall|k: nat|
            k <= n ==> (#[trigger] stats.rearmed().stepped_times(dt, k)).outcome(true)
                == CombatOutcome::Cooled,
        stats.rearmed().stepped_times(dt, n).time_till_next_attack == cooldown_period(
            stats.attack_speed,
        ) - n * dt,
    decreases n,
{
    if n > 0 {
        let m = (n - 1) as nat;
        assert(m * dt <= n * dt) by (nonlinear_arith)
            requires
                m <= n,
                dt >= 0,
        ;
        assert(n * dt == m * dt + dt) by (nonlinear_arith)
            requires
                n == m + 1,
        ;
        law_cooldown_holds(stats, dt, m);
        let before = stats.rearmed().stepped_times(dt, m);
        assert(before.outcome(true) == CombatOutcome::Cooled);
        assert forall|k: nat| k <= n implies (#[trigger] stats.rearmed().stepped_times(
            dt,
            k,
        )).outcome(true) == CombatOutcome::Cooled by {
            if k <= m {
            } else {
                assert(k == n);
            }
        }
    }
}

/// An entity composed from blueprints has the hit points that the last
/// health blueprint among them gives, current and maximum alike.
pub proof fn law_blueprint_health(
    base: Components,
    blueprints: Seq<ComponentBlueprint>,
    slots: Map<Seq<char>, usize>,
    k: int,
    at: int,
)
    requires
        0 <= at < k <= blueprints.len(),
        blueprints[at] is Health,
        forall|j: int| at < j < k ==> !(blueprints[j] is Health),
    ensures
        composed_upto(base, blueprints, slots, k).health == Some(
            Health {
                max_health: blueprints[at]->max_health,
                health: blueprints[at]->Health_health,
            },
        ),
    decreases k,
{
    if at < k - 1 {
        law_blueprint_health(base, blueprints, slots, k - 1, at);
        assert(!(blueprints[k - 1] is Health));
    }
}

/// An entity composed from blueprints has the attack statistics that the
/// last attack blueprint among them gives, and is ready to hit at once.
pub proof fn law_blueprint_attack_ready(
    base: Components,
    blueprints: Seq<ComponentBlueprint>,
    slots: Map<Seq<char>, usize>,
    k: int,
    at: int,
)
    requires
        0 <= at < k <= blueprints.len(),
        blueprints[at] is AttackStats,
        forall|j: int| at < j < k ==> !(blueprints[j] is AttackStats),
    ensures
        composed_upto(base, blueprints, slots, k).attack_stats == Some(
            AttackStats {
                damage: blueprints[at]->damage,
                attack_speed: blueprints[at]->attack_speed,
                attack_range: blueprints[at]->attack_range,
                time_till_next_attack: 0,
            },
        ),
    decreases k,
{
    if at < k - 1 {
        law_blueprint_attack_ready(base, blueprints, slots, k - 1, at);
        assert(!(blueprints[k - 1] is AttackStats));
    }
}

} // verus!
