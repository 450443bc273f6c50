//! Hit points and the death condition.

use vstd::prelude::*;
use crate::entity::Entity;
use crate::world::{Components, World, WorldState};

verus! {

/// Hit points of an entity. `health` may exceed `max_health` and may drop
/// below zero; nothing clamps it to that range.
#[derive(Clone, Copy, Debug, PartialEq, Eq, Hash, Structural)]
pub struct Health {
    pub max_health: i32,
    pub health: i32,
}

/// `value` limited to what an `i32` holds.
pub open spec fn clamp_i32(value: int) -> int {
    if value < i32::MIN {
        i32::MIN as int
    } else if value > i32::MAX {
        i32::MAX as int
    } else {
        value
    }
}

impl Default for Health {
    fn default() -> (h: Health)
        ensures
            h == (Health { max_health: 0, health: 0 }),
    {
        Health { max_health: 0, health: 0 }
    }
}

impl Health {
    /// The death condition: no hit points left.
    pub open spec fn depleted(self) -> bool {
        self.health <= 0
    }

    /// Hit points after a hit of `damage`: a flat subtraction, limited only
    /// by the range of `i32`.
    pub open spec fn damaged(self, damage: int) -> Health {
        Health { max_health: self.max_health, health: clamp_i32(self.health - damage) as i32 }
    }

    /// Full health at `value`, as a level entity's `health` field gives it.
    pub fn from_field(value: i32) -> (h: Health)
        ensures
            h == (Health { max_health: value, health: value }),
    {
        Health { health: value, max_health: value }
    }

    /// Whether the entity is to die at the next lifecycle pass.
    pub fn is_depleted(&self) -> (r: bool)
        ensures
            r == self.depleted(),
    {
        self.health <= 0
    }

    /// Takes `damage` off the current hit points.
    pub fn take_damage(&mut self, damage: i32)
        ensures
            *final(self) == old(self).damaged(damage as int),
    {
        let left: i64 = self.health as i64 - damage as i64;
        self.health = if left < i32::MIN as i64 {
            i32::MIN
        } else if left > i32::MAX as i64 {
            i32::MAX
        } else {
            left as i32
        };
    }
}

impl WorldState {
    /// The death condition of the entity numbered `i`: it belongs to a team
    /// and its hit points are used up.
    pub open spec fn dies(self, i: int) -> bool {
        let c = self.entities[i];
        c.alive && c.team is Some && c.health is Some && c.health->0.depleted()
    }

    /// For every entity, whether it meets the death condition.
    pub open spec fn death_marks(self) -> Seq<bool> {
        Seq::new(self.entities.len(), |i: int| self.dies(i))
    }

    /// Whether the entity numbered `i` goes when the marked entities are
    /// destroyed: it exists, and it is marked itself or attached to an entity
    /// that goes.
    pub open spec fn doomed(self, marks: Seq<bool>, i: int) -> bool
        decreases i,
    {
        if 0 <= i < self.entities.len() && i < marks.len() {
            let c = self.entities[i];
            c.alive && (marks[i] || (c.parent is Some && c.parent->0.index() < i && self.doomed(
                marks,
                c.parent->0.index(),
            )))
        } else {
            false
        }
    }

    /// The entities numbered below `k` that go when the marked entities are
    /// destroyed, in the order of their numbers.
    pub open spec fn doomed_upto(self, marks: Seq<bool>, k: int) -> Seq<Entity>
        decreases k,
    {
        if k <= 0 {
            Seq::empty()
        } else if self.doomed(marks, k - 1) {
            self.doomed_upto(marks, k - 1).push(Entity((k - 1) as u64))
        } else {
            self.doomed_upto(marks, k - 1)
        }
    }

    /// The world after the marked entities were destroyed, each with all
    /// that is attached to it. Nothing is left of a destroyed entity.
    pub open spec fn without(self, marks: Seq<bool>) -> WorldState {
        WorldState {
            entities: Seq::new(
                self.entities.len(),
                |i: int|
                    if self.doomed(marks, i) {
                        Components::vacant()
                    } else {
                        self.entities[i]
                    },
            ),
            in_vision: Seq::new(
                self.in_vision.len(),
                |i: int|
                    if self.doomed(marks, i) {
                        None
                    } else {
                        self.in_vision[i]
                    },
            ),
            ..self
        }
    }

    /// The world after the lifecycle pass.
    pub open spec fn buried(self) -> WorldState {
        self.without(self.death_marks())
    }

    /// The entities that the lifecycle pass destroys.
    pub open spec fn casualties(self) -> Seq<Entity> {
        self.doomed_upto(self.death_marks(), self.entities.len() as int)
    }

    /// The marks that single out every entity.
    pub open spec fn all_marked(self) -> Seq<bool> {
        Seq::new(self.entities.len(), |i: int| true)
    }

    /// The marks that single out `entity`.
    pub open spec fn mark_of(self, entity: Entity) -> Seq<bool> {
        Seq::new(self.entities.len(), |i: int| i == entity.index())
    }

    /// The list of those that go, said without recursion: exactly the
    /// entities that go, each once, in the order of their numbers.
    pub proof fn law_casualties(self, marks: Seq<bool>, k: int)
        requires
            0 <= k <= self.entities.len(),
            k <= u64::MAX,
        ensures
            forall|a: int|
                0 <= a < self.doomed_upto(marks, k).len() ==> {
                    let gone = #[trigger] self.doomed_upto(marks, k)[a];
                    0 <= gone.index() < k && self.doomed(marks, gone.index())
                },
            forall|j: int|
                0 <= j < k && self.doomed(marks, j) ==> exists|a: int|
                    0 <= a < self.doomed_upto(marks, k).len() && (#[trigger] self.doomed_upto(
                        marks,
                        k,
                    )[a]).index() == j,
            forall|a: int, b: int|
                0 <= a < b < self.doomed_upto(marks, k).len() ==> (#[trigger] self.doomed_upto(
                    marks,
                    k,
                )[a]).index() < (#[trigger] self.doomed_upto(marks, k)[b]).index(),
        decreases k,
    {
        if k > 0 {
            self.law_casualties(marks, k - 1);
            let before = self.doomed_upto(marks, k - 1);
            let now = self.doomed_upto(marks, k);
            assert forall|j: int| 0 <= j < k && self.doomed(marks, j) implies exists|a: int|
                0 <= a < now.len() && (#[trigger] now[a]).index() == j by {
                if j < k - 1 {
                    let a = choose|a: int| 0 <= a < before.len() && (#[trigger] before[a]).index() == j;
                    assert(now[a] == before[a]);
                } else {
                    assert(now[now.len() - 1].index() == j);
                }
            }
            assert forall|a: int, b: int| 0 <= a < b < now.len() implies (#[trigger] now[a]).index()
                < (#[trigger] now[b]).index() by {
                if b < before.len() {
                    assert(now[a] == before[a] && now[b] == before[b]);
                } else {
                    assert(now[a] == before[a]);
                }
            }
        }
    }

    /// Destroying entities keeps the invariant.
    pub proof fn lemma_without_wf(self, marks: Seq<bool>)
        requires
            self.wf(),
            marks.len() == self.entities.len(),
        ensures
            self.without(marks).wf(),
    {
        let next = self.without(marks);
        assert forall|i: int| 0 <= i < next.entities.len() implies if (
        #[trigger] next.entities[i]).alive {
            next.admits(i, next.entities[i])
        } else {
            next.entities[i] == Components::vacant() && next.in_vision[i] is None
        } by {
            let c = self.entities[i];
            if c.alive {
                assert(self.admits(i, c));
            }
        }
    }
}

impl World {
    /// Destroys the marked entities, each with all that is attached to it,
    /// and returns the destroyed in the order of their numbers.
    pub(crate) fn remove_marked(&mut self, marks: &Vec<bool>) -> (gone: Vec<Entity>)
        requires
            old(self).wf(),
            marks@.len() == old(self)@.len(),
        ensures
            final(self).wf(),
            final(self)@ == old(self)@.without(marks@),
            gone@ == old(self)@.doomed_upto(marks@, old(self)@.len() as int),
    {
        let n = self.entities.len();
        let mut flags: Vec<bool> = Vec::new();
        let mut gone: Vec<Entity> = Vec::new();
        let mut i: usize = 0;
        while i < n
            invariant
                i <= n,
                n == old(self).entities@.len(),
                n == marks@.len(),
                self.entities@.len() == n,
                self.in_vision@.len() == n,
                old(self).in_vision@.len() == n,
                self.waypoint_map == old(self).waypoint_map,
                self.player_settings == old(self).player_settings,
                self.clock == old(self).clock,
                flags@.len() == i,
                forall|j: int| 0 <= j < i ==> flags@[j] == old(self)@.doomed(marks@, j),
                gone@ == old(self)@.doomed_upto(marks@, i as int),
                forall|j: int|
                    0 <= j < i ==> self.entities@[j] == old(self)@.without(marks@).entities[j],
                forall|j: int|
                    0 <= j < i ==> crate::world::vision_view(self.in_vision@[j]) == old(
                        self,
                    )@.without(marks@).in_vision[j],
                forall|j: int| i <= j < n ==> self.entities@[j] == old(self).entities@[j],
                forall|j: int| i <= j < n ==> self.in_vision@[j] == old(self).in_vision@[j],
            decreases n - i,
        {
            let c = self.entities[i];
            let doomed = c.alive && (marks[i] || match c.parent {
                Some(parent) => parent.0 < i as u64 && flags[parent.0 as usize],
                None => false,
            });
            flags.push(doomed);
            if doomed {
                self.entities.set(i, Components::cleared());
                self.in_vision.set(i, None);
                gone.push(Entity(i as u64));
            }
            i += 1;
        }
        proof {
            assert(self@.entities =~= old(self)@.without(marks@).entities);
            assert(self@.in_vision =~= old(self)@.without(marks@).in_vision);
            old(self)@.lemma_without_wf(marks@);
        }
        gone
    }

    /// The lifecycle pass: destroys every entity of a team whose hit points
    /// are used up, with all that is attached to it, and returns the
    /// destroyed in the order of their numbers.
    pub fn check_death(&mut self) -> (dead: Vec<Entity>)
        requires
            old(self).wf(),
        ensures
            final(self).wf(),
            final(self)@ == old(self)@.buried(),
            dead@ == old(self)@.casualties(),
    {
        let n = self.entities.len();
        let mut marks: Vec<bool> = Vec::new();
        let mut i: usize = 0;
        while i < n
            invariant
                i <= n,
                n == self.entities@.len(),
                marks@.len() == i,
                forall|j: int| 0 <= j < i ==> marks@[j] == self@.dies(j),
            decreases n - i,
        {
            let c = self.entities[i];
            let dies = c.alive && c.team.is_some() && match c.health {
                Some(health) => health.is_depleted(),
                None => false,
            };
            marks.push(dies);
            i += 1;
        }
        assert(marks@ =~= self@.death_marks());
        self.remove_marked(&marks)
    }

    /// Destroys every entity, as at the end of a match, and returns the
    /// destroyed in the order of their numbers.
    pub fn cleanup_after_game(&mut self) -> (gone: Vec<Entity>)
        requires
            old(self).wf(),
        ensures
            final(self).wf(),
            final(self)@ == old(self)@.without(old(self)@.all_marked()),
            gone@ == old(self)@.doomed_upto(old(self)@.all_marked(), old(self)@.len() as int),
            forall|i: int| 0 <= i < final(self)@.len() ==> !(#[trigger] final(self)@.entities[i]).alive,
    {
        let n = self.entities.len();
        let mut marks: Vec<bool> = Vec::new();
        let mut i: usize = 0;
        while i < n
            invariant
                i <= n,
                n == self.entities@.len(),
                marks@.len() == i,
                forall|j: int| 0 <= j < i ==> marks@[j],
            decreases n - i,
        {
            marks.push(true);
            i += 1;
        }
        assert(marks@ =~= self@.all_marked());
        proof {
            assert forall|i: int| 0 <= i < self@.len() implies !(#[trigger] self@.without(
                self@.all_marked(),
            ).entities[i]).alive by {
                if self@.entities[i].alive {
                    assert(self@.doomed(self@.all_marked(), i));
                }
            }
        }
        self.remove_marked(&marks)
    }

    /// Destroys `entity` with all that is attached to it, and returns the
    /// destroyed in the order of their numbers. Nothing happens where the
    /// entity does not exist.
    pub fn despawn(&mut self, entity: Entity) -> (gone: Vec<Entity>)
        requires
            old(self).wf(),
        ensures
            final(self).wf(),
            final(self)@ == old(self)@.without(old(self)@.mark_of(entity)),
            gone@ == old(self)@.doomed_upto(old(self)@.mark_of(entity), old(self)@.len() as int),
    {
        let n = self.entities.len();
        let mut marks: Vec<bool> = Vec::new();
        let mut i: usize = 0;
        while i < n
            invariant
                i <= n,
                n == self.entities@.len(),
                marks@.len() == i,
                forall|j: int| 0 <= j < i ==> marks@[j] == (j == entity.index()),
            decreases n - i,
        {
            marks.push(i as u64 == entity.0);
            i += 1;
        }
        assert(marks@ =~= self@.mark_of(entity));
        self.remove_marked(&marks)
    }
}

} // verus!
