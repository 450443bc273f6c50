//! Melee combat: attack statistics, the cooldown state machine, target
//! acquisition and the combat pass.

use vstd::prelude::*;
use crate::entity::Entity;
use crate::world::{Components, World, WorldState};

verus! {

/// Microseconds of cooldown that one attack per second amounts to, times the
/// scale of `attack_speed` (thousandths of an attack per second).
pub const COOLDOWN_NUMERATOR: u64 = 1_000_000_000;

/// What an attacker hits with, and how often.
#[derive(Clone, Copy, Debug, PartialEq, Eq, Hash, Structural)]
pub struct AttackStats {
    /// Hit points taken off the target by one hit.
    pub damage: i32,
    /// Thousandths of an attack per second.
    pub attack_speed: u32,
    /// Reach in sub-units. Stored for whoever picks targets; the combat pass
    /// itself does not measure distances.
    pub attack_range: u32,
    /// Microseconds until the next hit may land. Ready at zero or below.
    pub time_till_next_attack: i64,
}

/// The enemy an attacker is fighting.
#[derive(Clone, Copy, Debug, PartialEq, Eq, Hash, Structural)]
pub struct AttackTarget(pub Entity);

/// Where a combatant stands in the cycle of cooling down and hitting.
#[derive(Clone, Copy, Debug, PartialEq, Eq, Hash, Structural)]
pub enum CombatPhase {
    /// No target.
    Idle,
    /// A target, and the cooldown still running.
    Cooling,
    /// A target, and the cooldown run out.
    Ready,
}

/// What one combat step did for one attacker.
#[derive(Clone, Copy, Debug, PartialEq, Eq, Hash, Structural)]
pub enum CombatOutcome {
    /// The cooldown ran on; nothing else happened.
    Cooled,
    /// The attacker hit for this much damage and started a new cooldown.
    Struck(i32),
    /// The target is gone: the attacker gives it up and keeps its cooldown.
    TargetLost,
}

/// The cooldown that follows a hit: one second divided by the attack speed.
/// An attacker of speed zero never comes ready again.
pub open spec fn cooldown_period(attack_speed: u32) -> int {
    if attack_speed == 0 {
        i64::MAX as int
    } else {
        (COOLDOWN_NUMERATOR as int) / (attack_speed as int)
    }
}

impl AttackStats {
    /// Whether the cooldown has run out.
    pub open spec fn ready(self) -> bool {
        self.time_till_next_attack <= 0
    }

    /// The statistics after `dt` microseconds of cooling.
    pub open spec fn cooled(self, dt: u32) -> AttackStats {
        AttackStats {
            time_till_next_attack: (self.time_till_next_attack - dt) as i64,
            ..self
        }
    }

    /// The statistics right after a hit.
    pub open spec fn rearmed(self) -> AttackStats {
        AttackStats { time_till_next_attack: cooldown_period(self.attack_speed) as i64, ..self }
    }

    /// The phase of a combatant with these statistics.
    pub open spec fn spec_phase(self, has_target: bool) -> CombatPhase {
        if !has_target {
            CombatPhase::Idle
        } else if self.ready() {
            CombatPhase::Ready
        } else {
            CombatPhase::Cooling
        }
    }

    /// The statistics after one combat step against a target that does
    /// (`target_has_health`) or does not resolve to hit points.
    pub open spec fn stepped(self, dt: u32, target_has_health: bool) -> AttackStats {
        if !self.ready() {
            self.cooled(dt)
        } else if target_has_health {
            self.rearmed()
        } else {
            self
        }
    }

    /// What one combat step does: cool down, hit, or give the target up.
    pub open spec fn outcome(self, target_has_health: bool) -> CombatOutcome {
        if !self.ready() {
            CombatOutcome::Cooled
        } else if target_has_health {
            CombatOutcome::Struck(self.damage)
        } else {
            CombatOutcome::TargetLost
        }
    }

    /// The statistics after `n` combat steps of `dt` microseconds each
    /// against a target with hit points.
    pub open spec fn stepped_times(self, dt: u32, n: nat) -> AttackStats
        decreases n,
    {
        if n == 0 {
            self
        } else {
            self.stepped_times(dt, (n - 1) as nat).stepped(dt, true)
        }
    }

    /// Statistics as a blueprint gives them: ready to hit at once.
    pub fn new(damage: i32, attack_speed: u32, attack_range: u32) -> (stats: AttackStats)
        ensures
            stats == (AttackStats { damage, attack_speed, attack_range, time_till_next_attack: 0 }),
    {
        AttackStats { damage, attack_speed, attack_range, time_till_next_attack: 0 }
    }

    /// The cooldown that follows a hit, in microseconds.
    pub fn cooldown(&self) -> (period: i64)
        ensures
            period == cooldown_period(self.attack_speed),
            period >= 0,
    {
        if self.attack_speed == 0 {
            i64::MAX
        } else {
            (COOLDOWN_NUMERATOR / (self.attack_speed as u64)) as i64
        }
    }

    /// The phase of a combatant with these statistics.
    pub fn phase(&self, has_target: bool) -> (phase: CombatPhase)
        ensures
            phase == self.spec_phase(has_target),
    {
        if !has_target {
            CombatPhase::Idle
        } else if self.time_till_next_attack <= 0 {
            CombatPhase::Ready
        } else {
            CombatPhase::Cooling
        }
    }

    /// One combat step of an attacker that holds a target. While the cooldown
    /// runs it is reduced by `dt` and nothing else happens. Once it has run
    /// out, a target with hit points is hit and the cooldown starts anew; a
    /// target without is given up and the cooldown stays as it is.
    pub fn step(&mut self, dt: u32, target_has_health: bool) -> (outcome: CombatOutcome)
        ensures
            *final(self) == old(self).stepped(dt, target_has_health),
            outcome == old(self).outcome(target_has_health),
    {
        if self.time_till_next_attack > 0 {
            self.time_till_next_attack = self.time_till_next_attack - dt as i64;
            CombatOutcome::Cooled
        } else if target_has_health {
            self.time_till_next_attack = self.cooldown();
            CombatOutcome::Struck(self.damage)
        } else {
            CombatOutcome::TargetLost
        }
    }
}

/// The target of a combatant after target resolution. Without a target it
/// takes the first enemy in sight, if there is one. With a target it keeps it
/// as long as the target resolves to hit points, and drops it otherwise.
pub open spec fn resolved_target(
    current: Option<AttackTarget>,
    target_has_health: bool,
    enemies: Seq<Entity>,
) -> Option<AttackTarget> {
    match current {
        Some(target) => if target_has_health {
            Some(target)
        } else {
            None
        },
        None => if enemies.len() > 0 {
            Some(AttackTarget(enemies[0]))
        } else {
            None
        },
    }
}

/// Target resolution for one combatant; `target_has_health` is read only
/// where `current` holds a target.
pub fn resolve_target(
    current: Option<AttackTarget>,
    target_has_health: bool,
    enemies: &Vec<Entity>,
) -> (target: Option<AttackTarget>)
    ensures
        target == resolved_target(current, target_has_health, enemies@),
{
    match current {
        Some(target) => if target_has_health {
            Some(target)
        } else {
            None
        },
        None => if enemies.len() > 0 {
            Some(AttackTarget(enemies[0]))
        } else {
            None
        },
    }
}

impl WorldState {
    /// Whether the attack target of the entity numbered `i` resolves to hit
    /// points.
    pub open spec fn target_has_health(self, i: int) -> bool {
        match self.entities[i].attack_target {
            Some(target) => self.components(target.0).health is Some,
            None => false,
        }
    }

    /// The enemies that the entity numbered `i` perceives; none where it
    /// does not perceive.
    pub open spec fn enemies_of(self, i: int) -> Seq<Entity> {
        match self.in_vision[i] {
            Some(seen) => seen.enemies,
            None => Seq::empty(),
        }
    }

    /// The entity numbered `i` after target resolution. Only an entity with
    /// attack statistics takes part, and only its attack target changes.
    pub open spec fn targeted_one(self, i: int) -> Components {
        let c = self.entities[i];
        if c.attack_stats is Some {
            Components {
                attack_target: resolved_target(
                    c.attack_target,
                    self.target_has_health(i),
                    self.enemies_of(i),
                ),
                ..c
            }
        } else {
            c
        }
    }

    /// The world after the targeting pass.
    pub open spec fn targeted(self) -> WorldState {
        WorldState {
            entities: Seq::new(self.entities.len(), |i: int| self.targeted_one(i)),
            ..self
        }
    }

    /// The world after the combat step of the entity numbered `i`. An entity
    /// fights where it has attack statistics and an attack target. While its
    /// cooldown runs, only the cooldown changes. Once it has run out, a
    /// target with hit points loses `damage` of them and the cooldown starts
    /// anew; a target without is given up.
    pub open spec fn fought_one(self, i: int, dt: u32) -> WorldState {
        let c = self.entities[i];
        if c.attack_stats is Some && c.attack_target is Some {
            let stats = c.attack_stats->0;
            let hit = self.target_has_health(i);
            let attacker = Components {
                attack_stats: Some(stats.stepped(dt, hit)),
                attack_target: if stats.outcome(hit) == CombatOutcome::TargetLost {
                    None
                } else {
                    c.attack_target
                },
                ..c
            };
            let entities = self.entities.update(i, attacker);
            match stats.outcome(hit) {
                CombatOutcome::Struck(damage) => {
                    let target = c.attack_target->0;
                    let slot = target.0.index();
                    let defender = entities[slot];
                    WorldState {
                        entities: entities.update(
                            slot,
                            Components {
                                health: Some(defender.health->0.damaged(damage as int)),
                                ..defender
                            },
                        ),
                        ..self
                    }
                },
                _ => WorldState { entities, ..self },
            }
        } else {
            self
        }
    }

    /// The world after the combat steps of the entities numbered below `k`,
    /// taken in order.
    pub open spec fn fought_upto(self, k: int, dt: u32) -> WorldState
        decreases k,
    {
        if k <= 0 {
            self
        } else {
            self.fought_upto(k - 1, dt).fought_one(k - 1, dt)
        }
    }

    /// The world after the combat pass: the combat steps of all entities, in
    /// the order of their numbers.
    pub open spec fn fought(self, dt: u32) -> WorldState {
        self.fought_upto(self.entities.len() as int, dt)
    }

    /// A combat step keeps the invariant and the number of entities.
    pub proof fn lemma_fought_one(self, i: int, dt: u32)
        requires
            self.wf(),
            0 <= i < self.entities.len(),
        ensures
            self.fought_one(i, dt).wf(),
            self.fought_one(i, dt).entities.len() == self.entities.len(),
    {
        let next = self.fought_one(i, dt);
        assert forall|j: int| 0 <= j < self.entities.len() implies WorldState::steady(
            #[trigger] self.entities[j],
            next.entities[j],
        ) by {
            if !self.entities[j].alive {
                assert(self.entities[j] == Components::vacant());
            }
        }
        self.lemma_steady_step(next);
    }
}

impl World {
    /// The targeting pass. Every combatant without a target takes the first
    /// enemy that it perceives; every combatant whose target no longer
    /// resolves to hit points gives it up. The first enemy is taken as the
    /// list has it, which is as old as the last perception pass.
    pub fn find_attack_target(&mut self)
        requires
            old(self).wf(),
        ensures
            final(self).wf(),
            final(self)@ == old(self)@.targeted(),
    {
        let n = self.entities.len();
        let nobody: Vec<Entity> = Vec::new();
        let mut i: usize = 0;
        while i < n
            invariant
                i <= n,
                n == old(self).entities@.len(),
                self.entities@.len() == n,
                self.same_but_entities(old(self)),
                old(self).wf(),
                nobody@.len() == 0,
                forall|j: int| 0 <= j < i ==> self.entities@[j] == old(self)@.targeted_one(j),
                forall|j: int| i <= j < n ==> self.entities@[j] == old(self).entities@[j],
                forall|j: int|
                    0 <= j < n ==> (#[trigger] self.entities@[j]).health == old(
                        self,
                    ).entities@[j].health,
            decreases n - i,
        {
            let mut c = self.entities[i];
            if c.attack_stats.is_some() {
                let has_health = match c.attack_target {
                    Some(target) => self.components(target.0).health.is_some(),
                    None => false,
                };
                assert(has_health == old(self)@.target_has_health(i as int));
                c.attack_target = match &self.in_vision[i] {
                    Some(seen) => resolve_target(c.attack_target, has_health, &seen.enemies),
                    None => resolve_target(c.attack_target, has_health, &nobody),
                };
                self.entities.set(i, c);
            }
            i += 1;
        }
        proof {
            assert(self@.entities =~= old(self)@.targeted().entities);
            old(self)@.lemma_steady_step(self@);
        }
    }

    /// The combat pass: every entity with attack statistics and an attack
    /// target takes its combat step, in the order of the entity numbers.
    pub fn attack_target(&mut self, dt: u32)
        requires
            old(self).wf(),
        ensures
            final(self).wf(),
            final(self)@ == old(self)@.fought(dt),
    {
        let n = self.entities.len();
        let mut i: usize = 0;
        while i < n
            invariant
                i <= n,
                self.entities@.len() == n,
                n == old(self)@.entities.len(),
                self.wf(),
                self@ == old(self)@.fought_upto(i as int, dt),
            decreases n - i,
        {
            let ghost before = self@;
            proof {
                before.lemma_fought_one(i as int, dt);
            }
            let mut c = self.entities[i];
            if let (Some(mut stats), Some(target)) = (c.attack_stats, c.attack_target) {
                let hit = self.components(target.0).health.is_some();
                let outcome = stats.step(dt, hit);
                c.attack_stats = Some(stats);
                match outcome {
                    CombatOutcome::TargetLost => {
                        c.attack_target = None;
                    },
                    _ => {},
                }
                self.entities.set(i, c);
                match outcome {
                    CombatOutcome::Struck(damage) => {
                        if let Some(slot) = self.slot(target.0) {
                            let mut defender = self.entities[slot];
                            if let Some(mut health) = defender.health {
                                health.take_damage(damage);
                                defender.health = Some(health);
                                self.entities.set(slot, defender);
                            }
                        }
                    },
                    _ => {},
                }
            }
            proof {
                assert(self@.in_vision =~= before.in_vision);
                assert(self@.entities =~= before.fought_one(i as int, dt).entities);
                assert(self@ == before.fought_one(i as int, dt));
            }
            i += 1;
        }
    }
}

} // verus!
