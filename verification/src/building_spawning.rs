//! Placing a building: the ghost that previews it follows the pointer, turns
//! invalid where it touches a building, and becomes the building on
//! confirmation.

use vstd::prelude::*;
use crate::buildings::{spawn_building, spawn_ghost_building, BuildingGhost};
use crate::entity::Entity;
use crate::geometry::Point;
use crate::grid_traits::SnapToGrid;
use crate::teams::Team;
use crate::vision::{sort_entities, viewer_and_seen, CollisionEvent, Contact};
use crate::world::{Components, World, WorldState};

verus! {

/// Cell size of the grid that buildings stand on: 32 world units, in
/// sub-units.
pub const BUILDING_GRID: u32 = 32_000;

/// The player asks to place a building: the slot of its blueprint in the
/// faction catalogue, and the team to place it for.
#[derive(Clone, Copy, Debug, PartialEq, Eq, Hash, Structural)]
pub struct InitPlaceBuildingEvent(pub usize, pub Team);

/// The ghosts among the entities numbered below `k`, in the order of their
/// numbers.
pub open spec fn ghosts_upto(entities: Seq<Components>, k: int) -> Seq<Entity>
    decreases k,
{
    if k <= 0 {
        Seq::empty()
    } else if entities[k - 1].building_ghost is Some {
        ghosts_upto(entities, k - 1).push(Entity((k - 1) as u64))
    } else {
        ghosts_upto(entities, k - 1)
    }
}

/// Every ghost listed is an entity below `k` that previews a building.
pub proof fn lemma_ghosts_upto(entities: Seq<Components>, k: int)
    requires
        0 <= k <= entities.len(),
        k <= u64::MAX,
    ensures
        forall|g: int|
            0 <= g < ghosts_upto(entities, k).len() ==> {
                let ghost_entity = #[trigger] ghosts_upto(entities, k)[g];
                0 <= ghost_entity.index() < k && entities[ghost_entity.index()].building_ghost
                    is Some
            },
    decreases k,
{
    if k > 0 {
        lemma_ghosts_upto(entities, k - 1);
    }
}

/// What a contact event says of a ghost's placement: a contact with a
/// building that begins makes it invalid, one that ends makes it valid.
/// Of the two sides the ghost is the one that previews a building; the
/// other counts as the entity that its collider is attached to.
pub open spec fn placement_verdict(state: WorldState, event: CollisionEvent) -> Option<
    (Entity, bool),
> {
    let (first, second, valid) = match event {
        CollisionEvent::Started(first, second) => (first, second, false),
        CollisionEvent::Stopped(first, second) => (first, second, true),
    };
    match viewer_and_seen(state.ghost_contact(first), state.ghost_contact(second)) {
        Some(pair) => if state.components(pair.1).building {
            Some((pair.0, valid))
        } else {
            None
        },
        None => None,
    }
}

/// The verdicts on ghosts' placements, kept in a hash map by entity number.
#[verifier::external_body]
#[derive(Debug)]
pub struct GhostCollisions {
    map: bevy::utils::HashMap<u64, bool>,
}

/// What a table of verdicts holds: the verdict on each entity number that
/// it knows.
pub type Verdicts = Map<u64, bool>;

/// The entries of a table of verdicts: for each entity number that it knows,
/// whether the placement is valid.
pub uninterp spec fn collision_entries(table: GhostCollisions) -> Map<u64, bool>;

/// `Default::default` of hashbrown's `HashMap`, which bevy's `HashMap` is: a
/// table without entries.
#[verifier::external_body]
fn ghost_collisions_new() -> (table: GhostCollisions)
    ensures
        collision_entries(table) == Verdicts::empty(),
{
    GhostCollisions { map: bevy::utils::HashMap::default() }
}

/// `entry` of hashbrown's `HashMap` with `or_insert` of its `Entry`: a table
/// without an entry for `key` gets one with `valid`; a table with one stays
/// as it is.
#[verifier::external_body]
fn ghost_collisions_or_insert(table: &mut GhostCollisions, key: u64, valid: bool)
    ensures
        collision_entries(*final(table)) == if collision_entries(*old(table)).contains_key(key) {
            collision_entries(*old(table))
        } else {
            collision_entries(*old(table)).insert(key, valid)
        },
{
    table.map.entry(key).or_insert(valid);
}

/// `get` of hashbrown's `HashMap`: the verdict that the table has for `key`,
/// `None` where it has no entry for it.
#[verifier::external_body]
fn ghost_collisions_get(table: &GhostCollisions, key: u64) -> (valid: Option<bool>)
    ensures
        valid == if collision_entries(*table).contains_key(key) {
            Some(collision_entries(*table)[key])
        } else {
            None
        },
{
    table.map.get(&key).copied()
}

/// The verdicts of the first `k` of `events`: for the number of each ghost
/// that they concern, what the first of them that concerns it says.
pub open spec fn verdicts_upto(state: WorldState, events: Seq<CollisionEvent>, k: int) -> Map<
    u64,
    bool,
>
    decreases k,
{
    if k <= 0 {
        Map::empty()
    } else {
        let earlier = verdicts_upto(state, events, k - 1);
        match placement_verdict(state, events[k - 1]) {
            Some(verdict) => if earlier.contains_key(verdict.0.to_bits_spec()) {
                earlier
            } else {
                earlier.insert(verdict.0.to_bits_spec(), verdict.1)
            },
            None => earlier,
        }
    }
}

impl WorldState {
    /// The ghosts in the world, in the order of their numbers.
    pub open spec fn ghosts(self) -> Seq<Entity> {
        ghosts_upto(self.entities, self.entities.len() as int)
    }

    /// The ghost, where the world holds exactly one.
    pub open spec fn single_ghost(self) -> Option<Entity> {
        if self.ghosts().len() == 1 {
            Some(self.ghosts()[0])
        } else {
            None
        }
    }

    /// What is known of `entity` as one side of a ghost's contact: the side
    /// that previews a building is the one that detects.
    pub open spec fn ghost_contact(self, entity: Entity) -> Contact {
        Contact {
            entity,
            sensor: self.components(entity).building_ghost is Some,
            parent: self.components(entity).parent,
        }
    }

    /// The world after the first `k` requests to place a building were
    /// granted, each with a ghost at `pointer`. A request for a blueprint
    /// that the faction does not have is passed over.
    pub open spec fn ghosts_placed_upto(
        self,
        events: Seq<InitPlaceBuildingEvent>,
        pointer: Point,
        k: int,
    ) -> WorldState
        decreases k,
    {
        if k <= 0 {
            self
        } else {
            let earlier = self.ghosts_placed_upto(events, pointer, k - 1);
            let event = events[k - 1];
            if event.0 < self.settings.faction.spec_buildings().len() {
                earlier.with_ghost(event.1, event.0, pointer)
            } else {
                earlier
            }
        }
    }

    /// The world after the requests to place a building were handled. While
    /// a ghost exists every request is dropped: one building is placed at a
    /// time.
    pub open spec fn placing_started(self, events: Seq<InitPlaceBuildingEvent>, pointer: Point) -> WorldState {
        if self.ghosts().len() > 0 {
            self
        } else {
            self.ghosts_placed_upto(events, pointer, events.len() as int)
        }
    }

    /// The world after the ghost followed the pointer: a single ghost that
    /// stands somewhere moves to the grid point nearest to `pointer`.
    pub open spec fn ghost_moved(self, pointer: Point) -> WorldState {
        match self.single_ghost() {
            Some(placing) => if self.entities[placing.index()].position is Some {
                WorldState {
                    entities: self.entities.update(
                        placing.index(),
                        Components {
                            position: Some(pointer.snapped(BUILDING_GRID)),
                            ..self.entities[placing.index()]
                        },
                    ),
                    ..self
                }
            } else {
                self
            },
            None => self,
        }
    }

    /// The entity numbered `i` after contact events were judged: a ghost
    /// whose placement they concern takes the verdict.
    pub open spec fn judged_one(self, verdicts: Map<u64, bool>, i: int) -> Components {
        let c = self.entities[i];
        if c.building_ghost is Some && verdicts.contains_key(i as u64) {
            Components {
                building_ghost: Some(
                    BuildingGhost { placement_valid: verdicts[i as u64], ..c.building_ghost->0 },
                ),
                ..c
            }
        } else {
            c
        }
    }

    /// The world after the contact events of a tick were judged.
    pub open spec fn judged(self, events: Seq<CollisionEvent>) -> WorldState {
        let verdicts = verdicts_upto(self, events, events.len() as int);
        WorldState {
            entities: Seq::new(self.entities.len(), |i: int| self.judged_one(verdicts, i)),
            ..self
        }
    }

    /// Whether a confirmation places the building: there is a single ghost,
    /// it stands somewhere, and its placement is valid.
    pub open spec fn placeable(self) -> bool {
        self.single_ghost() matches Some(placing) && self.entities[placing.index()].position
            is Some && self.entities[placing.index()].building_ghost->0.placement_valid
    }

    /// The world after the building was placed: the ghost is gone and the
    /// building that it previewed stands in its place.
    pub open spec fn placed(self) -> WorldState {
        let placing = self.single_ghost()->0;
        let c = self.entities[placing.index()];
        let preview = c.building_ghost->0;
        self.without(self.mark_of(placing)).with_building(
            preview.team,
            preview.building_blueprint as int,
            c.position->0,
        )
    }
}

impl World {
    /// The ghosts in the world, in the order of their numbers.
    pub fn ghosts(&self) -> (found: Vec<Entity>)
        ensures
            found@ == self@.ghosts(),
    {
        let n = self.entities.len();
        let mut found: Vec<Entity> = Vec::new();
        let mut i: usize = 0;
        while i < n
            invariant
                i <= n,
                n == self.entities@.len(),
                found@ == ghosts_upto(self.entities@, i as int),
            decreases n - i,
        {
            if self.entities[i].building_ghost.is_some() {
                found.push(Entity(i as u64));
            }
            i += 1;
        }
        found
    }

    /// The ghost, where the world holds exactly one.
    pub fn single_ghost(&self) -> (placing: Option<Entity>)
        ensures
            placing == self@.single_ghost(),
            placing matches Some(e) ==> e.index() < self@.len() && self@.entities[e.index()].building_ghost
                is Some,
    {
        let found = self.ghosts();
        let n = self.entities.len();
        proof {
            lemma_ghosts_upto(self.entities@, self.entities@.len() as int);
        }
        if found.len() == 1 {
            Some(found[0])
        } else {
            None
        }
    }

    /// Handles the requests to place a building. While a ghost exists they
    /// are dropped. Otherwise each request for a blueprint of the faction
    /// gets a ghost at `mouse_position`.
    pub fn on_init_place_building(
        &mut self,
        events: &Vec<InitPlaceBuildingEvent>,
        mouse_position: Point,
    )
        requires
            old(self).wf(),
        ensures
            final(self).wf(),
            final(self)@ == old(self)@.placing_started(events@, mouse_position),
    {
        if self.ghosts().len() > 0 {
            return ;
        }
        let mut k: usize = 0;
        while k < events.len()
            invariant
                k <= events@.len(),
                self.wf(),
                self@.settings == old(self)@.settings,
                self@ == old(self)@.ghosts_placed_upto(events@, mouse_position, k as int),
            decreases events@.len() - k,
        {
            let event = events[k];
            let placing = spawn_ghost_building(
                self,
                event.1,
                mouse_position.x,
                mouse_position.y,
                event.0,
            );
            k += 1;
        }
    }

    /// Lets the ghost follow the pointer: a single ghost moves to the grid
    /// point nearest to `mouse_position`.
    pub fn update_ghost_building_position(&mut self, mouse_position: Point)
        requires
            old(self).wf(),
        ensures
            final(self).wf(),
            final(self)@ == old(self)@.ghost_moved(mouse_position),
    {
        if let Some(placing) = self.single_ghost() {
            let mut c = self.components(placing);
            if c.position.is_some() {
                proof {
                    assert(self@.admits(placing.index(), self@.entities[placing.index()]));
                }
                c.position = Some(mouse_position.snap_to_grid(BUILDING_GRID));
                let done = self.update(placing, c);
            }
        }
    }

    /// Gives up placing a building: on `cancel` a single ghost is destroyed.
    /// Returns whether one was.
    pub fn cancel_building(&mut self, cancel: bool) -> (cancelled: bool)
        requires
            old(self).wf(),
        ensures
            final(self).wf(),
            cancelled == (cancel && old(self)@.single_ghost() is Some),
            final(self)@ == if cancelled {
                old(self)@.without(old(self)@.mark_of(old(self)@.single_ghost()->0))
            } else {
                old(self)@
            },
    {
        if !cancel {
            return false;
        }
        match self.single_ghost() {
            Some(placing) => {
                let gone = self.despawn(placing);
                true
            },
            None => false,
        }
    }

    /// What a contact event says of a ghost's placement.
    pub fn placement_verdict(&self, event: CollisionEvent) -> (verdict: Option<(Entity, bool)>)
        ensures
            verdict == placement_verdict(self@, event),
            verdict matches Some(v) ==> v.0.index() < self@.len(),
    {
        let (first, second, valid) = match event {
            CollisionEvent::Started(first, second) => (first, second, false),
            CollisionEvent::Stopped(first, second) => (first, second, true),
        };
        let first_side = self.components(first);
        let second_side = self.components(second);
        let pair = sort_entities(
            Contact {
                entity: first,
                sensor: first_side.building_ghost.is_some(),
                parent: first_side.parent,
            },
            Contact {
                entity: second,
                sensor: second_side.building_ghost.is_some(),
                parent: second_side.parent,
            },
        );
        match pair {
            Some((placing, other)) => if self.components(other).building {
                Some((placing, valid))
            } else {
                None
            },
            None => None,
        }
    }

    /// Judges a ghost's placement by the contact events of a tick. For each
    /// ghost the first event that concerns it decides: a contact with a
    /// building that begins makes the placement invalid, one that ends makes
    /// it valid. A ghost that no event concerns keeps its verdict.
    pub fn ghost_building_collision_system(&mut self, events: &Vec<CollisionEvent>)
        requires
            old(self).wf(),
        ensures
            final(self).wf(),
            final(self)@ == old(self)@.judged(events@),
    {
        let n = self.entities.len();
        let mut ghost_collisions = ghost_collisions_new();
        let mut k: usize = 0;
        while k < events.len()
            invariant
                k <= events@.len(),
                collision_entries(ghost_collisions) == verdicts_upto(self@, events@, k as int),
            decreases events@.len() - k,
        {
            if let Some((placing, valid)) = self.placement_verdict(events[k]) {
                ghost_collisions_or_insert(&mut ghost_collisions, placing.to_bits(), valid);
            }
            k += 1;
        }
        let ghost verdicts = verdicts_upto(self@, events@, events@.len() as int);
        let mut i: usize = 0;
        while i < n
            invariant
                i <= n,
                n == old(self).entities@.len(),
                self.entities@.len() == n,
                self.same_but_entities(old(self)),
                verdicts == verdicts_upto(old(self)@, events@, events@.len() as int),
                verdicts == collision_entries(ghost_collisions),
                forall|j: int|
                    0 <= j < i ==> self.entities@[j] == old(self)@.judged_one(verdicts, j),
                forall|j: int| i <= j < n ==> self.entities@[j] == old(self).entities@[j],
            decreases n - i,
        {
            let mut c = self.entities[i];
            if let (Some(mut preview), Some(valid)) = (
                c.building_ghost,
                ghost_collisions_get(&ghost_collisions, i as u64),
            ) {
                preview.placement_valid = valid;
                c.building_ghost = Some(preview);
                self.entities.set(i, c);
            }
            i += 1;
        }
        proof {
            assert(self@.entities =~= old(self)@.judged(events@).entities);
            old(self)@.lemma_steady_step(self@);
        }
    }

    /// Places the building on `confirm`: where a single ghost stands
    /// somewhere with a valid placement, the ghost is destroyed and the
    /// building that it previewed is spawned in its place. Returns the
    /// building, `None` where none was placed.
    pub fn building_placement(&mut self, confirm: bool) -> (building: Option<Entity>)
        requires
            old(self).wf(),
        ensures
            final(self).wf(),
            building is Some <==> confirm && old(self)@.placeable(),
            final(self)@ == if building is Some {
                old(self)@.placed()
            } else {
                old(self)@
            },
            building matches Some(e) ==> e.index() == old(self)@.len(),
    {
        if !confirm {
            return None;
        }
        match self.single_ghost() {
            Some(placing) => {
                let c = self.components(placing);
                match (c.building_ghost, c.position) {
                    (Some(preview), Some(position)) => {
                        if preview.placement_valid {
                            proof {
                                assert(self@.admits(
                                    placing.index(),
                                    self@.entities[placing.index()],
                                ));
                            }
                            let gone = self.despawn(placing);
                            spawn_building(
                                self,
                                preview.team,
                                position.x,
                                position.y,
                                preview.building_blueprint,
                            )
                        } else {
                            None
                        }
                    },
                    _ => None,
                }
            },
            None => None,
        }
    }
}

} // verus!
