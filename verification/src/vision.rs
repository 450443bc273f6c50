//! Perception: who an entity sees, sorted into friends and enemies.

use vstd::prelude::*;
use crate::attack::AttackTarget;
use crate::entity::Entity;
use crate::geometry::{dist2, Point};
use crate::movement::MoveTarget;
use crate::teams::Team;
use crate::world::{vision_view, Components, World, WorldState};

verus! {

/// Microseconds between two perception passes.
pub const PERCEPTION_PERIOD: u32 = 200_000;

/// How far an entity sees, in sub-units.
#[derive(Clone, Copy, Debug, PartialEq, Eq, Hash, Structural)]
pub struct VisionRange(pub u32);

/// Marks an entity that enemies can perceive and target.
#[derive(Clone, Copy, Debug, PartialEq, Eq, Hash, Structural)]
pub struct Visible;

/// One entity found in range of a viewer, with what perception needs to know
/// of it.
#[derive(Clone, Copy, Debug, PartialEq, Eq, Hash, Structural)]
pub struct Sighting {
    pub entity: Entity,
    pub team: Team,
    pub visible: bool,
}

/// What an entity perceives: the friends and the enemies in range, each in
/// the order in which the range query found them.
#[derive(Debug)]
pub struct InVision {
    pub friendlies: Vec<Entity>,
    pub enemies: Vec<Entity>,
}

/// The contents of an [`InVision`].
pub struct Perceived {
    pub friendlies: Seq<Entity>,
    pub enemies: Seq<Entity>,
}

/// Whether a viewer of `team` perceives a sighting as a friend: another
/// entity of the same team.
pub open spec fn is_friend(viewer: Entity, team: Team, sighting: Sighting) -> bool {
    sighting.entity != viewer && sighting.team == team
}

/// Whether a viewer of `team` perceives a sighting as an enemy: a visible
/// entity of another team.
pub open spec fn is_enemy(viewer: Entity, team: Team, sighting: Sighting) -> bool {
    sighting.entity != viewer && sighting.team != team && sighting.visible
}

/// The friends among `sightings`, in order.
pub open spec fn friendlies_among(viewer: Entity, team: Team, sightings: Seq<Sighting>) -> Seq<
    Entity,
>
    decreases sightings.len(),
{
    if sightings.len() == 0 {
        Seq::empty()
    } else {
        let rest = friendlies_among(viewer, team, sightings.drop_last());
        if is_friend(viewer, team, sightings.last()) {
            rest.push(sightings.last().entity)
        } else {
            rest
        }
    }
}

/// The enemies among `sightings`, in order.
pub open spec fn enemies_among(viewer: Entity, team: Team, sightings: Seq<Sighting>) -> Seq<Entity>
    decreases sightings.len(),
{
    if sightings.len() == 0 {
        Seq::empty()
    } else {
        let rest = enemies_among(viewer, team, sightings.drop_last());
        if is_enemy(viewer, team, sightings.last()) {
            rest.push(sightings.last().entity)
        } else {
            rest
        }
    }
}

/// What a viewer of `team` perceives of `sightings`.
pub open spec fn perceived(viewer: Entity, team: Team, sightings: Seq<Sighting>) -> Perceived {
    Perceived {
        friendlies: friendlies_among(viewer, team, sightings),
        enemies: enemies_among(viewer, team, sightings),
    }
}

/// Every perceived friend is a sighting of the viewer's team other than the
/// viewer, and every such sighting is perceived.
pub proof fn law_perceived_friends(viewer: Entity, team: Team, sightings: Seq<Sighting>)
    ensures
        forall|e: Entity|
            friendlies_among(viewer, team, sightings).contains(e) <==> exists|k: int|
                0 <= k < sightings.len() && #[trigger] sightings[k].entity == e && is_friend(
                    viewer,
                    team,
                    sightings[k],
                ),
    decreases sightings.len(),
{
    if sightings.len() > 0 {
        let front = sightings.drop_last();
        let last = sightings.len() - 1;
        law_perceived_friends(viewer, team, front);
        let rest = friendlies_among(viewer, team, front);
        let all = friendlies_among(viewer, team, sightings);
        assert forall|e: Entity| all.contains(e) <==> exists|k: int|
            0 <= k < sightings.len() && #[trigger] sightings[k].entity == e && is_friend(
                viewer,
                team,
                sightings[k],
            ) by {
            if all.contains(e) {
                let j = choose|j: int| 0 <= j < all.len() && all[j] == e;
                if j < rest.len() {
                    assert(rest[j] == e);
                    assert(rest.contains(e));
                    let k = choose|k: int|
                        0 <= k < front.len() && #[trigger] front[k].entity == e && is_friend(
                            viewer,
                            team,
                            front[k],
                        );
                    assert(sightings[k].entity == e);
                } else {
                    assert(sightings[last].entity == e);
                }
            }
            if exists|k: int|
                0 <= k < sightings.len() && #[trigger] sightings[k].entity == e && is_friend(
                    viewer,
                    team,
                    sightings[k],
                ) {
                let k = choose|k: int|
                    0 <= k < sightings.len() && #[trigger] sightings[k].entity == e && is_friend(
                        viewer,
                        team,
                        sightings[k],
                    );
                if k < last {
                    assert(front[k].entity == e);
                    assert(rest.contains(e));
                    let j = choose|j: int| 0 <= j < rest.len() && rest[j] == e;
                    assert(all[j] == e);
                } else {
                    assert(all[all.len() - 1] == e);
                }
            }
        }
    }
}

/// Every perceived enemy is a visible sighting of another team, and every
/// such sighting is perceived.
pub proof fn law_perceived_enemies(viewer: Entity, team: Team, sightings: Seq<Sighting>)
    ensures
        forall|e: Entity|
            enemies_among(viewer, team, sightings).contains(e) <==> exists|k: int|
                0 <= k < sightings.len() && #[trigger] sightings[k].entity == e && is_enemy(
                    viewer,
                    team,
                    sightings[k],
                ),
    decreases sightings.len(),
{
    if sightings.len() > 0 {
        let front = sightings.drop_last();
        let last = sightings.len() - 1;
        law_perceived_enemies(viewer, team, front);
        let rest = enemies_among(viewer, team, front);
        let all = enemies_among(viewer, team, sightings);
        assert forall|e: Entity| all.contains(e) <==> exists|k: int|
            0 <= k < sightings.len() && #[trigger] sightings[k].entity == e && is_enemy(
                viewer,
                team,
                sightings[k],
            ) by {
            if all.contains(e) {
                let j = choose|j: int| 0 <= j < all.len() && all[j] == e;
                if j < rest.len() {
                    assert(rest[j] == e);
                    assert(rest.contains(e));
                    let k = choose|k: int|
                        0 <= k < front.len() && #[trigger] front[k].entity == e && is_enemy(
                            viewer,
                            team,
                            front[k],
                        );
                    assert(sightings[k].entity == e);
                } else {
                    assert(sightings[last].entity == e);
                }
            }
            if exists|k: int|
                0 <= k < sightings.len() && #[trigger] sightings[k].entity == e && is_enemy(
                    viewer,
                    team,
                    sightings[k],
                ) {
                let k = choose|k: int|
                    0 <= k < sightings.len() && #[trigger] sightings[k].entity == e && is_enemy(
                        viewer,
                        team,
                        sightings[k],
                    );
                if k < last {
                    assert(front[k].entity == e);
                    assert(rest.contains(e));
                    let j = choose|j: int| 0 <= j < rest.len() && rest[j] == e;
                    assert(all[j] == e);
                } else {
                    assert(all[all.len() - 1] == e);
                }
            }
        }
    }
}

impl InVision {
    /// The contents as sequences.
    pub open spec fn view(&self) -> Perceived {
        Perceived { friendlies: self.friendlies@, enemies: self.enemies@ }
    }

    /// Perceiving nothing.
    pub fn new() -> (v: InVision)
        ensures
            v@.friendlies == Seq::<Entity>::empty(),
            v@.enemies == Seq::<Entity>::empty(),
    {
        InVision { friendlies: Vec::new(), enemies: Vec::new() }
    }

    /// Replaces both lists by what a viewer of `team` perceives of
    /// `sightings`. Nothing of the old contents survives.
    pub fn rebuild(&mut self, viewer: Entity, team: Team, sightings: &Vec<Sighting>)
        ensures
            final(self)@ == perceived(viewer, team, sightings@),
    {
        self.friendlies.clear();
        self.enemies.clear();
        let mut k: usize = 0;
        assert(sightings@.subrange(0, 0).len() == 0);
        while k < sightings.len()
            invariant
                k <= sightings@.len(),
                self.friendlies@ == friendlies_among(viewer, team, sightings@.subrange(0, k as int)),
                self.enemies@ == enemies_among(viewer, team, sightings@.subrange(0, k as int)),
            decreases sightings@.len() - k,
        {
            let sighting = sightings[k];
            assert(sightings@.subrange(0, k + 1).drop_last() =~= sightings@.subrange(0, k as int));
            if sighting.entity != viewer {
                if sighting.team == team {
                    self.friendlies.push(sighting.entity);
                } else if sighting.visible {
                    self.enemies.push(sighting.entity);
                }
            }
            k += 1;
        }
        assert(sightings@.subrange(0, k as int) =~= sightings@);
    }
}

/// Lets one pass in every [`PERCEPTION_PERIOD`] of simulated time through.
#[derive(Clone, Copy, Debug, PartialEq, Eq, Hash, Structural)]
pub struct PerceptionClock {
    /// Microseconds since the last pass, below the period.
    pub elapsed: u32,
}

impl PerceptionClock {
    /// Whether a pass is due once `dt` more microseconds have gone by.
    pub open spec fn due(self, dt: u32) -> bool {
        self.elapsed + dt >= PERCEPTION_PERIOD
    }

    /// The clock after `dt` more microseconds: what is left over of the time
    /// gone by once whole periods are taken off.
    pub open spec fn advanced(self, dt: u32) -> PerceptionClock {
        PerceptionClock { elapsed: ((self.elapsed + dt) % (PERCEPTION_PERIOD as int)) as u32 }
    }

    /// A clock that has just let a pass through.
    pub fn new() -> (clock: PerceptionClock)
        ensures
            clock.elapsed == 0,
    {
        PerceptionClock { elapsed: 0 }
    }

    /// Advances the clock by `dt` microseconds and says whether a pass is
    /// due. At most one pass is due however long `dt` is.
    pub fn tick(&mut self, dt: u32) -> (due: bool)
        ensures
            due == old(self).due(dt),
            *final(self) == old(self).advanced(dt),
            final(self).elapsed < PERCEPTION_PERIOD,
    {
        let total: u64 = self.elapsed as u64 + dt as u64;
        self.elapsed = (total % (PERCEPTION_PERIOD as u64)) as u32;
        total >= PERCEPTION_PERIOD as u64
    }
}

/// A contact of two colliders beginning or ending, as a physics engine
/// reports it.
#[derive(Clone, Copy, Debug, PartialEq, Eq, Hash, Structural)]
pub enum CollisionEvent {
    Started(Entity, Entity),
    Stopped(Entity, Entity),
}

/// What is known of one side of a contact.
#[derive(Clone, Copy, Debug, PartialEq, Eq, Hash, Structural)]
pub struct Contact {
    pub entity: Entity,
    /// Whether the entity carries a vision sensor.
    pub sensor: bool,
    /// The entity that the collider is attached to, if any.
    pub parent: Option<Entity>,
}

/// Tells viewer from seen in a contact. The side with the sensor views; what
/// it sees is the entity that the other side's collider is attached to.
/// The first side is asked first, and where it has the sensor the second is
/// never the viewer.
pub open spec fn viewer_and_seen(first: Contact, second: Contact) -> Option<(Entity, Entity)> {
    if first.sensor {
        match second.parent {
            Some(seen) => Some((first.entity, seen)),
            None => None,
        }
    } else if second.sensor {
        match first.parent {
            Some(seen) => Some((second.entity, seen)),
            None => None,
        }
    } else {
        None
    }
}

/// Tells viewer from seen in a contact.
pub fn sort_entities(first: Contact, second: Contact) -> (pair: Option<(Entity, Entity)>)
    ensures
        pair == viewer_and_seen(first, second),
{
    if first.sensor {
        match second.parent {
            Some(seen) => Some((first.entity, seen)),
            None => None,
        }
    } else if second.sensor {
        match first.parent {
            Some(seen) => Some((second.entity, seen)),
            None => None,
        }
    } else {
        None
    }
}

/// The attack target after a viewer gained sight of `seen`. A viewer that
/// can attack and has no target takes `seen` as one where `seen` has hit
/// points and is of another team. `viewer_team` is the team of a viewer
/// that can attack and has no target, `seen_team` that of a `seen` with hit
/// points.
pub open spec fn target_on_sight(
    current: Option<AttackTarget>,
    viewer_team: Option<Team>,
    seen: Entity,
    seen_team: Option<Team>,
) -> Option<AttackTarget> {
    if current is None && viewer_team is Some && seen_team is Some && viewer_team->0
        != seen_team->0 {
        Some(AttackTarget(seen))
    } else {
        current
    }
}

/// The attack target after a viewer gained sight of `seen`.
pub fn check_set_target(
    current: Option<AttackTarget>,
    viewer_team: Option<Team>,
    seen: Entity,
    seen_team: Option<Team>,
) -> (target: Option<AttackTarget>)
    ensures
        target == target_on_sight(current, viewer_team, seen, seen_team),
{
    match (current, viewer_team, seen_team) {
        (None, Some(own), Some(other)) => if own != other {
            Some(AttackTarget(seen))
        } else {
            current
        },
        _ => current,
    }
}

/// Attack and move target after a viewer lost sight of `seen`. Losing sight
/// of the attack target clears it, and with it a move target that is the
/// same entity. Losing sight of anyone else changes nothing.
pub open spec fn targets_on_sight_lost(
    attack_target: Option<AttackTarget>,
    move_target: Option<MoveTarget>,
    seen: Entity,
) -> (Option<AttackTarget>, Option<MoveTarget>) {
    if attack_target == Some(AttackTarget(seen)) {
        (
            None,
            if move_target == Some(MoveTarget(seen)) {
                None
            } else {
                move_target
            },
        )
    } else {
        (attack_target, move_target)
    }
}

/// Attack and move target after a viewer lost sight of `seen`.
pub fn check_remove_target(
    attack_target: Option<AttackTarget>,
    move_target: Option<MoveTarget>,
    seen: Entity,
) -> (r: (Option<AttackTarget>, Option<MoveTarget>))
    ensures
        r == targets_on_sight_lost(attack_target, move_target, seen),
{
    match attack_target {
        Some(target) => {
            if target.0 == seen {
                let kept = match move_target {
                    Some(walking_to) => if walking_to.0 == seen {
                        None
                    } else {
                        move_target
                    },
                    None => None,
                };
                (None, kept)
            } else {
                (attack_target, move_target)
            }
        },
        None => (attack_target, move_target),
    }
}

/// Whether the entity numbered `j` is found by a range query around
/// `center`: it belongs to a team and stands no farther than `range` from
/// `center`.
pub open spec fn in_range(entities: Seq<Components>, center: Point, range: VisionRange, j: int) -> bool {
    let c = entities[j];
    c.team is Some && c.position is Some && dist2(center, c.position->0) <= range.0 * range.0
}

/// What a range query reports of the entity numbered `j`.
pub open spec fn sighting_of(entities: Seq<Components>, j: int) -> Sighting {
    Sighting { entity: Entity(j as u64), team: entities[j].team->0, visible: entities[j].visible }
}

/// The entities numbered below `k` that a range query around `center` finds,
/// in the order of their numbers.
pub open spec fn sightings_upto(
    entities: Seq<Components>,
    center: Point,
    range: VisionRange,
    k: int,
) -> Seq<Sighting>
    decreases k,
{
    if k <= 0 {
        Seq::empty()
    } else if in_range(entities, center, range, k - 1) {
        sightings_upto(entities, center, range, k - 1).push(sighting_of(entities, k - 1))
    } else {
        sightings_upto(entities, center, range, k - 1)
    }
}

/// What a range query finds, said without recursion: exactly the entities
/// in range, each once and with what is reported of it, in the order of
/// their numbers.
pub proof fn law_range_query(
    entities: Seq<Components>,
    center: Point,
    range: VisionRange,
    k: int,
)
    requires
        0 <= k <= entities.len(),
        k <= u64::MAX,
    ensures
        forall|a: int|
            0 <= a < sightings_upto(entities, center, range, k).len() ==> {
                let found = #[trigger] sightings_upto(entities, center, range, k)[a];
                &&& 0 <= found.entity.index() < k
                &&& in_range(entities, center, range, found.entity.index())
                &&& found == sighting_of(entities, found.entity.index())
            },
        forall|j: int|
            0 <= j < k && in_range(entities, center, range, j) ==> exists|a: int|
                0 <= a < sightings_upto(entities, center, range, k).len() && (
                #[trigger] sightings_upto(entities, center, range, k)[a]).entity.index() == j,
        forall|a: int, b: int|
            0 <= a < b < sightings_upto(entities, center, range, k).len() ==> (
            #[trigger] sightings_upto(entities, center, range, k)[a]).entity.index() < (
            #[trigger] sightings_upto(entities, center, range, k)[b]).entity.index(),
    decreases k,
{
    if k > 0 {
        law_range_query(entities, center, range, k - 1);
        let before = sightings_upto(entities, center, range, k - 1);
        let now = sightings_upto(entities, center, range, k);
        assert forall|j: int| 0 <= j < k && in_range(entities, center, range, j) implies exists|
            a: int,
        |
            0 <= a < now.len() && (#[trigger] now[a]).entity.index() == j by {
            if j < k - 1 {
                let a = choose|a: int|
                    0 <= a < before.len() && (#[trigger] before[a]).entity.index() == j;
                assert(now[a] == before[a]);
            } else {
                assert(now[now.len() - 1].entity.index() == j);
            }
        }
        assert forall|a: int, b: int| 0 <= a < b < now.len() implies (#[trigger] now[a]).entity.index()
            < (#[trigger] now[b]).entity.index() by {
            if b < before.len() {
                assert(now[a] == before[a] && now[b] == before[b]);
            } else {
                assert(now[a] == before[a]);
            }
        }
    }
}

impl WorldState {
    /// What a range query around `center` finds: every entity of a team
    /// within `range`, the boundary included, in the order of the entity
    /// numbers.
    pub open spec fn within_distance(self, center: Point, range: VisionRange) -> Seq<Sighting> {
        sightings_upto(self.entities, center, range, self.entities.len() as int)
    }

    /// Whether the entity numbered `i` takes part in perception: it stands
    /// somewhere, belongs to a team, has a vision range and perceives.
    pub open spec fn perceives(self, i: int) -> bool {
        let c = self.entities[i];
        c.position is Some && c.team is Some && c.vision_range is Some && self.in_vision[i] is Some
    }

    /// What the entity numbered `i` perceives after the perception pass. A
    /// perceiver's lists are made anew from what is in range now.
    pub open spec fn watched_one(self, i: int) -> Option<Perceived> {
        let c = self.entities[i];
        if self.perceives(i) {
            Some(
                perceived(
                    Entity(i as u64),
                    c.team->0,
                    self.within_distance(c.position->0, c.vision_range->0),
                ),
            )
        } else {
            self.in_vision[i]
        }
    }

    /// The world after the perception pass.
    pub open spec fn watched(self) -> WorldState {
        WorldState {
            in_vision: Seq::new(self.in_vision.len(), |i: int| self.watched_one(i)),
            ..self
        }
    }

    /// What is known of `entity` as one side of a contact.
    pub open spec fn contact(self, entity: Entity) -> Contact {
        Contact {
            entity,
            sensor: self.components(entity).sensor,
            parent: self.components(entity).parent,
        }
    }

    /// The team of `entity` as an attacker in search of a target: its team,
    /// where it has attack statistics and a team.
    pub open spec fn team_as_attacker(self, entity: Entity) -> Option<Team> {
        let c = self.components(entity);
        if c.attack_stats is Some {
            c.team
        } else {
            None
        }
    }

    /// The team of `entity` as someone to attack: its team, where it has
    /// hit points and a team.
    pub open spec fn team_as_defender(self, entity: Entity) -> Option<Team> {
        let c = self.components(entity);
        if c.health is Some {
            c.team
        } else {
            None
        }
    }

    /// The world after `viewer` gained sight of `seen`.
    pub open spec fn with_sight(self, viewer: Entity, seen: Entity) -> WorldState {
        if viewer.index() < self.entities.len() {
            let c = self.entities[viewer.index()];
            WorldState {
                entities: self.entities.update(
                    viewer.index(),
                    Components {
                        attack_target: target_on_sight(
                            c.attack_target,
                            self.team_as_attacker(viewer),
                            seen,
                            self.team_as_defender(seen),
                        ),
                        ..c
                    },
                ),
                ..self
            }
        } else {
            self
        }
    }

    /// The world after `viewer` lost sight of `seen`.
    pub open spec fn without_sight(self, viewer: Entity, seen: Entity) -> WorldState {
        if viewer.index() < self.entities.len() {
            let c = self.entities[viewer.index()];
            let targets = targets_on_sight_lost(c.attack_target, c.move_target, seen);
            WorldState {
                entities: self.entities.update(
                    viewer.index(),
                    Components { attack_target: targets.0, move_target: targets.1, ..c },
                ),
                ..self
            }
        } else {
            self
        }
    }

    /// The world after one contact event. A contact that begins lets the
    /// viewer gain sight of the seen, one that ends lets it lose sight. A
    /// contact without a viewer changes nothing.
    pub open spec fn detected_one(self, event: CollisionEvent) -> WorldState {
        match event {
            CollisionEvent::Started(first, second) => match viewer_and_seen(
                self.contact(first),
                self.contact(second),
            ) {
                Some(pair) => self.with_sight(pair.0, pair.1),
                None => self,
            },
            CollisionEvent::Stopped(first, second) => match viewer_and_seen(
                self.contact(first),
                self.contact(second),
            ) {
                Some(pair) => self.without_sight(pair.0, pair.1),
                None => self,
            },
        }
    }

    /// The world after the first `k` of `events`, taken in order.
    pub open spec fn detected_upto(self, events: Seq<CollisionEvent>, k: int) -> WorldState
        decreases k,
    {
        if k <= 0 {
            self
        } else {
            self.detected_upto(events, k - 1).detected_one(events[k - 1])
        }
    }

    /// The world after all of `events`, taken in order.
    pub open spec fn detected(self, events: Seq<CollisionEvent>) -> WorldState {
        self.detected_upto(events, events.len() as int)
    }

    /// A contact event keeps the invariant and the number of entities.
    pub proof fn lemma_detected_one(self, event: CollisionEvent)
        requires
            self.wf(),
        ensures
            self.detected_one(event).wf(),
            self.detected_one(event).entities.len() == self.entities.len(),
    {
        let next = self.detected_one(event);
        assert forall|j: int| 0 <= j < self.entities.len() implies WorldState::steady(
            #[trigger] self.entities[j],
            next.entities[j],
        ) by {
            if !self.entities[j].alive {
                assert(self.entities[j] == Components::vacant());
            }
        }
        self.lemma_steady_step(next);
    }
}

impl World {
    /// The range query: every entity of a team that stands within `range` of
    /// `center`, the boundary included, in the order of the entity numbers.
    pub fn within_distance(&self, center: Point, range: VisionRange) -> (found: Vec<Sighting>)
        ensures
            found@ == self@.within_distance(center, range),
    {
        let n = self.entities.len();
        let mut found: Vec<Sighting> = Vec::new();
        let mut j: usize = 0;
        while j < n
            invariant
                j <= n,
                n == self.entities@.len(),
                found@ == sightings_upto(self.entities@, center, range, j as int),
            decreases n - j,
        {
            let c = self.entities[j];
            if let (Some(team), Some(position)) = (c.team, c.position) {
                if center.within(position, range.0) {
                    found.push(Sighting { entity: Entity(j as u64), team, visible: c.visible });
                }
            }
            j += 1;
        }
        found
    }

    /// The perception pass. For every perceiver the lists of friends and
    /// enemies are made anew from what a range query around it finds; no
    /// earlier entry survives, and no entity perceives itself.
    pub fn check_vision(&mut self)
        requires
            old(self).wf(),
        ensures
            final(self).wf(),
            final(self)@ == old(self)@.watched(),
    {
        let n = self.entities.len();
        let mut i: usize = 0;
        while i < n
            invariant
                i <= n,
                n == old(self).entities@.len(),
                old(self).wf(),
                self.entities == old(self).entities,
                self.in_vision@.len() == n,
                self.waypoint_map == old(self).waypoint_map,
                self.player_settings == old(self).player_settings,
                self.clock == old(self).clock,
                forall|j: int|
                    0 <= j < i ==> vision_view(self.in_vision@[j]) == old(self)@.watched_one(j),
                forall|j: int| i <= j < n ==> self.in_vision@[j] == old(self).in_vision@[j],
            decreases n - i,
        {
            let c = self.entities[i];
            if let (Some(position), Some(team), Some(range)) = (c.position, c.team, c.vision_range) {
                if self.in_vision[i].is_some() {
                    let sightings = self.within_distance(position, range);
                    let mut seen = InVision::new();
                    seen.rebuild(Entity(i as u64), team, &sightings);
                    self.in_vision.set(i, Some(seen));
                }
            }
            i += 1;
        }
        proof {
            assert(self@.in_vision =~= old(self)@.watched().in_vision);
            let before = old(self)@;
            let after = self@;
            assert forall|k: int| 0 <= k < after.entities.len() implies if (
            #[trigger] after.entities[k]).alive {
                after.admits(k, after.entities[k])
            } else {
                after.entities[k] == Components::vacant() && after.in_vision[k] is None
            } by {
                if before.entities[k].alive {
                    assert(before.admits(k, before.entities[k]));
                }
            }
        }
    }

    /// What is known of `entity` as one side of a contact.
    pub fn contact(&self, entity: Entity) -> (contact: Contact)
        ensures
            contact == self@.contact(entity),
    {
        let c = self.components(entity);
        Contact { entity, sensor: c.sensor, parent: c.parent }
    }

    /// Perception driven by contact events, as an alternative to the
    /// perception and targeting passes. The events are taken in order. When
    /// a sensor's contact with an entity begins, a viewer that can attack and
    /// has no target takes the entity as target where it has hit points and
    /// is of another team. When the contact ends, a viewer whose target the
    /// entity is gives the target up, and stops walking towards it.
    pub fn vision_detect_target(&mut self, events: &Vec<CollisionEvent>)
        requires
            old(self).wf(),
        ensures
            final(self).wf(),
            final(self)@ == old(self)@.detected(events@),
    {
        let mut k: usize = 0;
        while k < events.len()
            invariant
                k <= events@.len(),
                self.wf(),
                self@ == old(self)@.detected_upto(events@, k as int),
            decreases events@.len() - k,
        {
            let ghost before = self@;
            proof {
                before.lemma_detected_one(events@[k as int]);
            }
            match events[k] {
                CollisionEvent::Started(first, second) => {
                    if let Some((viewer, seen)) = sort_entities(
                        self.contact(first),
                        self.contact(second),
                    ) {
                        if let Some(slot) = self.slot(viewer) {
                            let mut c = self.entities[slot];
                            let attacker = if c.attack_stats.is_some() {
                                c.team
                            } else {
                                None
                            };
                            let other = self.components(seen);
                            let defender = if other.health.is_some() {
                                other.team
                            } else {
                                None
                            };
                            c.attack_target = check_set_target(
                                c.attack_target,
                                attacker,
                                seen,
                                defender,
                            );
                            self.entities.set(slot, c);
                        }
                    }
                },
                CollisionEvent::Stopped(first, second) => {
                    if let Some((viewer, seen)) = sort_entities(
                        self.contact(first),
                        self.contact(second),
                    ) {
                        if let Some(slot) = self.slot(viewer) {
                            let mut c = self.entities[slot];
                            let targets = check_remove_target(c.attack_target, c.move_target, seen);
                            c.attack_target = targets.0;
                            c.move_target = targets.1;
                            self.entities.set(slot, c);
                        }
                    }
                },
            }
            proof {
                assert(self@.in_vision =~= before.in_vision);
                assert(self@.entities =~= before.detected_one(events@[k as int]).entities);
                assert(self@ == before.detected_one(events@[k as int]));
            }
            k += 1;
        }
    }
}

} // verus!
