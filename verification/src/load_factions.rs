//! Faction catalogues: the blueprints of a faction's buildings and units,
//! and the checks made when a faction is loaded.

use vstd::prelude::*;

verus! {

/// One component of a blueprint. Lengths are in sub-units, durations in
/// microseconds, attack speed in thousandths of an attack per second.
#[derive(Debug)]
pub enum ComponentBlueprint {
    /// Produces the unit called `unit_id` every `spawn_time`.
    UnitSpawner { unit_id: String, spawn_time: u32 },
    Health { max_health: i32, health: i32 },
    AttackStats { damage: i32, attack_speed: u32, attack_range: u32 },
    VisionRange(u32),
    OpponentFollower,
    MovementSpeed(u32),
    Visible,
}

/// Archetype of a building.
#[derive(Debug)]
pub struct BuildingBlueprint {
    pub id: String,
    pub name: String,
    pub sprite: String,
    pub icon: String,
    pub components: Vec<ComponentBlueprint>,
}

/// Archetype of a unit.
#[derive(Debug)]
pub struct UnitBlueprint {
    pub id: String,
    pub name: String,
    pub sprite: String,
    pub components: Vec<ComponentBlueprint>,
}

/// A faction as its file describes it, before any check.
#[derive(Debug)]
pub struct FactionAsset {
    pub id: String,
    pub name: String,
    pub buildings: Vec<BuildingBlueprint>,
    pub units: Vec<UnitBlueprint>,
}

/// Why a faction could not be loaded.
#[non_exhaustive]
#[derive(Debug)]
pub enum FactionLoaderError {
    /// A unit spawner names a unit that the faction does not have.
    UnknownUnit { unit_id: String },
}

/// Table from blueprint ids to slots, kept in a hash map.
#[verifier::external_body]
#[derive(Debug)]
pub struct IdIndex {
    map: bevy::utils::HashMap<String, usize>,
}

/// What an id table holds: the slot of each id that it knows.
pub type IdSlots = Map<Seq<char>, usize>;

/// The entries of an id table: each id it knows, with its slot.
pub uninterp spec fn index_entries(index: IdIndex) -> Map<Seq<char>, usize>;

/// `Default::default` of hashbrown's `HashMap`, which bevy's `HashMap` is: a
/// table without entries.
#[verifier::external_body]
fn id_index_new() -> (index: IdIndex)
    ensures
        index_entries(index) == IdSlots::empty(),
{
    IdIndex { map: bevy::utils::HashMap::default() }
}

/// `insert` of hashbrown's `HashMap`: afterwards `id` leads to `slot`,
/// whatever it led to before, and every other id leads where it did.
#[verifier::external_body]
fn id_index_insert(index: &mut IdIndex, id: String, slot: usize)
    ensures
        index_entries(*final(index)) == index_entries(*old(index)).insert(id@, slot),
{
    index.map.insert(id, slot);
}

/// `get` of hashbrown's `HashMap`: the slot that `id` leads to, `None` where
/// the table has no entry for it.
#[verifier::external_body]
fn id_index_get(index: &IdIndex, id: &str) -> (slot: Option<usize>)
    ensures
        slot == if index_entries(*index).contains_key(id@) {
            Some(index_entries(*index)[id@])
        } else {
            None
        },
{
    index.map.get(id).copied()
}

/// The table that results from entering `ids[0]`, `ids[1]`, ... in turn, each
/// with its position: an id that occurs twice leads to its last position.
pub open spec fn id_slots(ids: Seq<Seq<char>>) -> Map<Seq<char>, usize>
    decreases ids.len(),
{
    if ids.len() == 0 {
        Map::empty()
    } else {
        id_slots(ids.drop_last()).insert(ids.last(), (ids.len() - 1) as usize)
    }
}

/// An id is in the table exactly when it occurs in the list, and then it
/// leads to its last occurrence.
pub proof fn lemma_id_slots(ids: Seq<Seq<char>>, id: Seq<char>)
    requires
        ids.len() <= usize::MAX,
    ensures
        id_slots(ids).contains_key(id) <==> ids.contains(id),
        id_slots(ids).contains_key(id) ==> {
            let slot = id_slots(ids)[id] as int;
            &&& 0 <= slot < ids.len()
            &&& ids[slot] == id
            &&& forall|k: int| slot < k < ids.len() ==> ids[k] != id
        },
    decreases ids.len(),
{
    if ids.len() > 0 {
        let front = ids.drop_last();
        lemma_id_slots(front, id);
        if ids.last() == id {
            assert(ids[ids.len() - 1] == id);
        } else if front.contains(id) {
            let k = choose|k: int| 0 <= k < front.len() && front[k] == id;
            assert(ids[k] == id);
        } else if ids.contains(id) {
            let k = choose|k: int| 0 <= k < ids.len() && ids[k] == id;
            assert(front[k] == id);
        }
        if id_slots(ids).contains_key(id) && ids.last() != id {
            let slot = id_slots(front)[id] as int;
            assert(front[slot] == ids[slot]);
            assert forall|k: int| slot < k < ids.len() implies ids[k] != id by {
                if k < front.len() {
                    assert(front[k] == ids[k]);
                }
            }
        }
    }
}

/// The ids of a list of unit blueprints, in order.
pub open spec fn unit_ids(units: Seq<UnitBlueprint>) -> Seq<Seq<char>> {
    Seq::new(units.len(), |k: int| units[k].id@)
}

/// The ids of a list of building blueprints, in order.
pub open spec fn building_ids(buildings: Seq<BuildingBlueprint>) -> Seq<Seq<char>> {
    Seq::new(buildings.len(), |k: int| buildings[k].id@)
}

/// A component refers only to units in `known`. Only a unit spawner refers
/// to anything.
pub open spec fn resolves(component: ComponentBlueprint, known: Map<Seq<char>, usize>) -> bool {
    component matches ComponentBlueprint::UnitSpawner { unit_id, .. } ==> known.contains_key(
        unit_id@,
    )
}

/// The first unit id from position `from` on in `components` that is not in
/// `known`.
pub open spec fn first_unknown_from(
    components: Seq<ComponentBlueprint>,
    known: Map<Seq<char>, usize>,
    from: int,
) -> Option<Seq<char>>
    decreases components.len() - from,
{
    if from < 0 || from >= components.len() {
        None
    } else if !resolves(components[from], known) {
        Some(components[from]->unit_id@)
    } else {
        first_unknown_from(components, known, from + 1)
    }
}

/// The component lists of a faction in the order in which they are checked:
/// those of the buildings, then those of the units.
pub open spec fn component_lists(
    buildings: Seq<BuildingBlueprint>,
    units: Seq<UnitBlueprint>,
) -> Seq<Seq<ComponentBlueprint>> {
    Seq::new(
        buildings.len() + units.len(),
        |k: int|
            if k < buildings.len() {
                buildings[k].components@
            } else {
                units[k - buildings.len()].components@
            },
    )
}

/// The first unit id from list `from` on that is not in `known`.
pub open spec fn first_unknown_in_lists(
    lists: Seq<Seq<ComponentBlueprint>>,
    known: Map<Seq<char>, usize>,
    from: int,
) -> Option<Seq<char>>
    decreases lists.len() - from,
{
    if from < 0 || from >= lists.len() {
        None
    } else {
        match first_unknown_from(lists[from], known, 0) {
            Some(id) => Some(id),
            None => first_unknown_in_lists(lists, known, from + 1),
        }
    }
}

/// The first dangling unit reference of a faction, if it has one.
pub open spec fn first_unknown_unit(
    buildings: Seq<BuildingBlueprint>,
    units: Seq<UnitBlueprint>,
) -> Option<Seq<char>> {
    first_unknown_in_lists(component_lists(buildings, units), id_slots(unit_ids(units)), 0)
}

/// Without a first unknown id from `from` on, every component from there on
/// resolves.
pub proof fn lemma_no_unknown_from(
    components: Seq<ComponentBlueprint>,
    known: Map<Seq<char>, usize>,
    from: int,
)
    requires
        0 <= from,
        first_unknown_from(components, known, from) is None,
    ensures
        forall|j: int| from <= j < components.len() ==> resolves(#[trigger] components[j], known),
    decreases components.len() - from,
{
    if from < components.len() {
        lemma_no_unknown_from(components, known, from + 1);
    }
}

/// Where every component from `from` on resolves, there is no first unknown
/// id from there on.
pub proof fn lemma_all_resolve_from(
    components: Seq<ComponentBlueprint>,
    known: Map<Seq<char>, usize>,
    from: int,
)
    requires
        0 <= from,
        forall|j: int| from <= j < components.len() ==> resolves(#[trigger] components[j], known),
    ensures
        first_unknown_from(components, known, from) is None,
    decreases components.len() - from,
{
    if from < components.len() {
        assert(resolves(components[from], known));
        lemma_all_resolve_from(components, known, from + 1);
    }
}

/// Without a first unknown id from list `from` on, every component of every
/// list from there on resolves.
pub proof fn lemma_no_unknown_in_lists(
    lists: Seq<Seq<ComponentBlueprint>>,
    known: Map<Seq<char>, usize>,
    from: int,
)
    requires
        0 <= from,
        first_unknown_in_lists(lists, known, from) is None,
    ensures
        forall|l: int, j: int|
            from <= l < lists.len() && 0 <= j < lists[l].len() ==> resolves(
                #[trigger] lists[l][j],
                known,
            ),
    decreases lists.len() - from,
{
    if from < lists.len() {
        lemma_no_unknown_from(lists[from], known, 0);
        lemma_no_unknown_in_lists(lists, known, from + 1);
    }
}

/// A checked faction catalogue. Blueprints are found by id through two id
/// tables; every unit that a spawner names exists.
#[derive(Debug)]
pub struct FactionBlueprint {
    id: String,
    name: String,
    buildings: Vec<BuildingBlueprint>,
    units: Vec<UnitBlueprint>,
    building_index: IdIndex,
    unit_index: IdIndex,
}

impl FactionBlueprint {
    /// The faction's id.
    pub closed spec fn spec_id(&self) -> Seq<char> {
        self.id@
    }

    /// The faction's display name.
    pub closed spec fn spec_name(&self) -> Seq<char> {
        self.name@
    }

    /// The building blueprints, in file order.
    pub closed spec fn spec_buildings(&self) -> Seq<BuildingBlueprint> {
        self.buildings@
    }

    /// The unit blueprints, in file order.
    pub closed spec fn spec_units(&self) -> Seq<UnitBlueprint> {
        self.units@
    }

    /// The slot of each known unit id.
    pub open spec fn unit_slots(&self) -> Map<Seq<char>, usize> {
        id_slots(unit_ids(self.spec_units()))
    }

    /// The slot of each known building id.
    pub open spec fn building_slots(&self) -> Map<Seq<char>, usize> {
        id_slots(building_ids(self.spec_buildings()))
    }

    /// The catalogue's invariant: the id tables hold the blueprints' ids, and
    /// no unit spawner dangles.
    pub closed spec fn wf(&self) -> bool {
        &&& index_entries(self.unit_index) == self.unit_slots()
        &&& index_entries(self.building_index) == self.building_slots()
        &&& first_unknown_unit(self.buildings@, self.units@) is None
    }

    /// In a well-formed catalogue every spawner of every blueprint names a
    /// unit that the catalogue holds.
    pub proof fn lemma_references_resolve(&self)
        requires
            self.wf(),
        ensures
            forall|b: int, j: int|
                0 <= b < self.spec_buildings().len() && 0 <= j
                    < self.spec_buildings()[b].components@.len() ==> resolves(
                    #[trigger] self.spec_buildings()[b].components@[j],
                    self.unit_slots(),
                ),
            forall|u: int, j: int|
                0 <= u < self.spec_units().len() && 0 <= j < self.spec_units()[u].components@.len()
                    ==> resolves(
                    #[trigger] self.spec_units()[u].components@[j],
                    self.unit_slots(),
                ),
    {
        let lists = component_lists(self.buildings@, self.units@);
        lemma_no_unknown_in_lists(lists, self.unit_slots(), 0);
        assert forall|b: int, j: int|
            0 <= b < self.spec_buildings().len() && 0 <= j
                < self.spec_buildings()[b].components@.len() implies resolves(
            #[trigger] self.spec_buildings()[b].components@[j],
            self.unit_slots(),
        ) by {
            assert(lists[b][j] == self.buildings@[b].components@[j]);
        }
        assert forall|u: int, j: int|
            0 <= u < self.spec_units().len() && 0 <= j
                < self.spec_units()[u].components@.len() implies resolves(
            #[trigger] self.spec_units()[u].components@[j],
            self.unit_slots(),
        ) by {
            let l = self.buildings@.len() + u;
            assert(lists[l][j] == self.units@[u].components@[j]);
        }
    }

    /// The faction's id.
    pub fn id(&self) -> (id: &String)
        ensures
            id@ == self.spec_id(),
    {
        &self.id
    }

    /// The faction's display name.
    pub fn name(&self) -> (name: &String)
        ensures
            name@ == self.spec_name(),
    {
        &self.name
    }

    /// The building blueprints, in file order.
    pub fn buildings(&self) -> (buildings: &Vec<BuildingBlueprint>)
        ensures
            buildings@ == self.spec_buildings(),
    {
        &self.buildings
    }

    /// The unit blueprints, in file order.
    pub fn units(&self) -> (units: &Vec<UnitBlueprint>)
        ensures
            units@ == self.spec_units(),
    {
        &self.units
    }

    /// The slot of the unit called `unit_id`: that of the last blueprint with
    /// this id, `None` where there is none.
    pub fn unit_slot(&self, unit_id: &str) -> (slot: Option<usize>)
        requires
            self.wf(),
        ensures
            slot is Some <==> unit_ids(self.spec_units()).contains(unit_id@),
            slot is Some <==> self.unit_slots().contains_key(unit_id@),
            slot matches Some(k) ==> {
                &&& k < self.spec_units().len()
                &&& self.spec_units()[k as int].id@ == unit_id@
                &&& self.unit_slots().contains_key(unit_id@)
                &&& self.unit_slots()[unit_id@] == k
                &&& forall|j: int| k < j < self.spec_units().len() ==> self.spec_units()[j].id@
                    != unit_id@
            },
    {
        let count = self.units.len();
        let slot = id_index_get(&self.unit_index, unit_id);
        proof {
            let ids = unit_ids(self.units@);
            lemma_id_slots(ids, unit_id@);
            if let Some(k) = slot {
                assert(ids[k as int] == self.units@[k as int].id@);
                assert forall|j: int| k < j < self.units@.len() implies self.units@[j].id@
                    != unit_id@ by {
                    assert(ids[j] == self.units@[j].id@);
                }
            }
        }
        slot
    }

    /// The slot of the building called `building_id`: that of the last
    /// blueprint with this id, `None` where there is none.
    pub fn building_slot(&self, building_id: &str) -> (slot: Option<usize>)
        requires
            self.wf(),
        ensures
            slot is Some <==> building_ids(self.spec_buildings()).contains(building_id@),
            slot is Some <==> self.building_slots().contains_key(building_id@),
            slot matches Some(k) ==> {
                &&& k < self.spec_buildings().len()
                &&& self.spec_buildings()[k as int].id@ == building_id@
                &&& self.building_slots().contains_key(building_id@)
                &&& self.building_slots()[building_id@] == k
                &&& forall|j: int|
                    k < j < self.spec_buildings().len() ==> self.spec_buildings()[j].id@
                        != building_id@
            },
    {
        let count = self.buildings.len();
        let slot = id_index_get(&self.building_index, building_id);
        proof {
            let ids = building_ids(self.buildings@);
            lemma_id_slots(ids, building_id@);
            if let Some(k) = slot {
                assert(ids[k as int] == self.buildings@[k as int].id@);
                assert forall|j: int| k < j < self.buildings@.len() implies self.buildings@[j].id@
                    != building_id@ by {
                    assert(ids[j] == self.buildings@[j].id@);
                }
            }
        }
        slot
    }

    /// Checks a faction and builds its catalogue. Fails on the first unit
    /// spawner, buildings before units, that names a unit which the faction
    /// does not have; the error carries that id.
    pub fn from_asset(asset: FactionAsset) -> (r: Result<FactionBlueprint, FactionLoaderError>)
        ensures
            match first_unknown_unit(asset.buildings@, asset.units@) {
                Some(missing) => r matches Err(FactionLoaderError::UnknownUnit { unit_id })
                    && unit_id@ == missing,
                None => r matches Ok(faction) && faction.wf() && faction.spec_id() == asset.id@
                    && faction.spec_name() == asset.name@ && faction.spec_buildings()
                    == asset.buildings@ && faction.spec_units() == asset.units@,
            },
    {
        let unit_index = index_units(&asset.units);
        let building_index = index_buildings(&asset.buildings);
        let ghost lists = component_lists(asset.buildings@, asset.units@);
        let ghost known = id_slots(unit_ids(asset.units@));
        let mut b: usize = 0;
        while b < asset.buildings.len()
            invariant
                b <= asset.buildings@.len(),
                lists == component_lists(asset.buildings@, asset.units@),
                known == id_slots(unit_ids(asset.units@)),
                known == index_entries(unit_index),
                first_unknown_in_lists(lists, known, 0) == first_unknown_in_lists(
                    lists,
                    known,
                    b as int,
                ),
            decreases asset.buildings@.len() - b,
        {
            assert(lists[b as int] == asset.buildings@[b as int].components@);
            match find_unknown_unit(&asset.buildings[b].components, &unit_index) {
                Some(unit_id) => {
                    return Err(FactionLoaderError::UnknownUnit { unit_id });
                },
                None => {},
            }
            b += 1;
        }
        let mut u: usize = 0;
        while u < asset.units.len()
            invariant
                b == asset.buildings@.len(),
                u <= asset.units@.len(),
                lists == component_lists(asset.buildings@, asset.units@),
                known == id_slots(unit_ids(asset.units@)),
                known == index_entries(unit_index),
                first_unknown_in_lists(lists, known, 0) == first_unknown_in_lists(
                    lists,
                    known,
                    b + u,
                ),
            decreases asset.units@.len() - u,
        {
            assert(lists[b + u] == asset.units@[u as int].components@);
            match find_unknown_unit(&asset.units[u].components, &unit_index) {
                Some(unit_id) => {
                    return Err(FactionLoaderError::UnknownUnit { unit_id });
                },
                None => {},
            }
            u += 1;
        }
        Ok(
            FactionBlueprint {
                id: asset.id,
                name: asset.name,
                buildings: asset.buildings,
                units: asset.units,
                building_index,
                unit_index,
            },
        )
    }
}

/// Enters the ids of `units` into a fresh id table, in order.
fn index_units(units: &Vec<UnitBlueprint>) -> (index: IdIndex)
    ensures
        index_entries(index) == id_slots(unit_ids(units@)),
{
    let mut index = id_index_new();
    let mut k: usize = 0;
    while k < units.len()
        invariant
            k <= units@.len(),
            index_entries(index) == id_slots(unit_ids(units@).subrange(0, k as int)),
        decreases units@.len() - k,
    {
        let ghost ids = unit_ids(units@);
        assert(ids.subrange(0, k + 1).drop_last() == ids.subrange(0, k as int));
        id_index_insert(&mut index, units[k].id.clone(), k);
        k += 1;
    }
    assert(unit_ids(units@).subrange(0, k as int) == unit_ids(units@));
    index
}

/// Enters the ids of `buildings` into a fresh id table, in order.
fn index_buildings(buildings: &Vec<BuildingBlueprint>) -> (index: IdIndex)
    ensures
        index_entries(index) == id_slots(building_ids(buildings@)),
{
    let mut index = id_index_new();
    let mut k: usize = 0;
    while k < buildings.len()
        invariant
            k <= buildings@.len(),
            index_entries(index) == id_slots(building_ids(buildings@).subrange(0, k as int)),
        decreases buildings@.len() - k,
    {
        let ghost ids = building_ids(buildings@);
        assert(ids.subrange(0, k + 1).drop_last() == ids.subrange(0, k as int));
        id_index_insert(&mut index, buildings[k].id.clone(), k);
        k += 1;
    }
    assert(building_ids(buildings@).subrange(0, k as int) == building_ids(buildings@));
    index
}

/// The first unit id in `components` that `units` does not know.
fn find_unknown_unit(components: &Vec<ComponentBlueprint>, units: &IdIndex) -> (missing: Option<
    String,
>)
    ensures
        match first_unknown_from(components@, index_entries(*units), 0) {
            Some(id) => missing matches Some(found) && found@ == id,
            None => missing is None,
        },
{
    let mut j: usize = 0;
    while j < components.len()
        invariant
            j <= components@.len(),
            first_unknown_from(components@, index_entries(*units), 0) == first_unknown_from(
                components@,
                index_entries(*units),
                j as int,
            ),
        decreases components@.len() - j,
    {
        match &components[j] {
            ComponentBlueprint::UnitSpawner { unit_id, .. } => {
                if id_index_get(units, unit_id.as_str()).is_none() {
                    return Some(unit_id.clone());
                }
            },
            _ => {},
        }
        j += 1;
    }
    None
}

/// All loaded factions.
#[derive(Debug)]
pub struct Factions(pub Vec<FactionBlueprint>);

/// The files among the first `k` of `assets` that resolved to a faction, in
/// order.
pub open spec fn present_upto(assets: Seq<Option<FactionAsset>>, k: int) -> Seq<FactionAsset>
    decreases k,
{
    if k <= 0 {
        Seq::empty()
    } else {
        match assets[k - 1] {
            Some(asset) => present_upto(assets, k - 1).push(asset),
            None => present_upto(assets, k - 1),
        }
    }
}

/// The first dangling unit reference from faction `from` on.
pub open spec fn first_unknown_in_factions(assets: Seq<FactionAsset>, from: int) -> Option<Seq<char>>
    decreases assets.len() - from,
{
    if from < 0 || from >= assets.len() {
        None
    } else {
        match first_unknown_unit(assets[from].buildings@, assets[from].units@) {
            Some(missing) => Some(missing),
            None => first_unknown_in_factions(assets, from + 1),
        }
    }
}

/// Whether `faction` is the catalogue of `asset`.
pub open spec fn catalogue_of(faction: FactionBlueprint, asset: FactionAsset) -> bool {
    &&& faction.wf()
    &&& faction.spec_id() == asset.id@
    &&& faction.spec_name() == asset.name@
    &&& faction.spec_buildings() == asset.buildings@
    &&& faction.spec_units() == asset.units@
}

/// Builds the catalogues of all loaded factions, in the order of their
/// files. A file that did not resolve to a faction is passed over. Fails on
/// the first faction with a spawner that names a unit which the faction does
/// not have; the error carries that id.
pub fn setup_factions_resource(assets: Vec<Option<FactionAsset>>) -> (r: Result<
    Factions,
    FactionLoaderError,
>)
    ensures
        match first_unknown_in_factions(present_upto(assets@, assets@.len() as int), 0) {
            Some(missing) => r matches Err(FactionLoaderError::UnknownUnit { unit_id })
                && unit_id@ == missing,
            None => {
                &&& r matches Ok(factions)
                &&& factions.0@.len() == present_upto(assets@, assets@.len() as int).len()
                &&& forall|j: int|
                    0 <= j < factions.0@.len() ==> catalogue_of(
                        #[trigger] factions.0@[j],
                        present_upto(assets@, assets@.len() as int)[j],
                    )
            },
        },
{
    let ghost all = assets@;
    let mut faction_blueprints: Vec<FactionBlueprint> = Vec::new();
    let mut rest = assets;
    let mut taken: Vec<Option<FactionAsset>> = Vec::new();
    // The files are taken from the back, so they are turned round first.
    while rest.len() > 0
        invariant
            rest@.len() + taken@.len() == all.len(),
            forall|j: int| 0 <= j < rest@.len() ==> rest@[j] == all[j],
            forall|j: int|
                0 <= j < taken@.len() ==> taken@[j] == all[all.len() - 1 - j],
        decreases rest@.len(),
    {
        let last = rest.pop();
        match last {
            Some(asset) => {
                taken.push(asset);
            },
            None => {},
        }
    }
    let ghost mut k: int = 0;
    while taken.len() > 0
        invariant
            all == assets@,
            0 <= k <= all.len(),
            k + taken@.len() == all.len(),
            forall|j: int|
                0 <= j < taken@.len() ==> taken@[j] == all[all.len() - 1 - j],
            faction_blueprints@.len() == present_upto(all, k).len(),
            forall|j: int|
                0 <= j < faction_blueprints@.len() ==> catalogue_of(
                    #[trigger] faction_blueprints@[j],
                    present_upto(all, k)[j],
                ),
            forall|j: int|
                0 <= j < present_upto(all, k).len() ==> first_unknown_unit(
                    (#[trigger] present_upto(all, k)[j]).buildings@,
                    present_upto(all, k)[j].units@,
                ) is None,
        decreases taken@.len(),
    {
        let next = taken.pop();
        proof {
            assert(next == Some(all[k]));
        }
        match next {
            Some(Some(asset)) => {
                let ghost given = asset;
                match FactionBlueprint::from_asset(asset) {
                    Ok(faction) => {
                        faction_blueprints.push(faction);
                    },
                    Err(error) => {
                        proof {
                            let present = present_upto(all, all.len() as int);
                            let before = present_upto(all, k);
                            let with_given = present_upto(all, k + 1);
                            lemma_present_prefix(all, k + 1, all.len() as int);
                            let at = before.len() as int;
                            assert(with_given == before.push(given));
                            assert(present[at] == with_given[at]);
                            assert forall|j: int| 0 <= j < at implies first_unknown_unit(
                                (#[trigger] present[j]).buildings@,
                                present[j].units@,
                            ) is None by {
                                assert(present[j] == with_given[j]);
                                assert(with_given[j] == before[j]);
                            }
                            lemma_first_failure(present, at);
                        }
                        return Err(error);
                    },
                }
            },
            _ => {},
        }
        proof {
            k = k + 1;
        }
    }
    proof {
        let present = present_upto(all, all.len() as int);
        lemma_no_failure(present, 0);
    }
    Ok(Factions(faction_blueprints))
}

/// The factions present among the first `k` files start the list of those
/// present among the first `n`.
pub proof fn lemma_present_prefix(assets: Seq<Option<FactionAsset>>, k: int, n: int)
    requires
        0 <= k <= n <= assets.len(),
    ensures
        present_upto(assets, k).len() <= present_upto(assets, n).len(),
        forall|j: int|
            0 <= j < present_upto(assets, k).len() ==> present_upto(assets, n)[j] == present_upto(
                assets,
                k,
            )[j],
    decreases n - k,
{
    if k < n {
        lemma_present_prefix(assets, k, n - 1);
    }
}

/// Where every faction before `at` has no dangling reference and the one at
/// `at` has, the first dangling reference of the list is that one's.
pub proof fn lemma_first_failure(assets: Seq<FactionAsset>, at: int)
    requires
        0 <= at < assets.len(),
        forall|j: int|
            0 <= j < at ==> first_unknown_unit(
                (#[trigger] assets[j]).buildings@,
                assets[j].units@,
            ) is None,
    ensures
        first_unknown_in_factions(assets, 0) == match first_unknown_unit(
            assets[at].buildings@,
            assets[at].units@,
        ) {
            Some(missing) => Some(missing),
            None => first_unknown_in_factions(assets, at + 1),
        },
{
    lemma_first_failure_from(assets, 0, at);
}

/// As [`lemma_first_failure`], counted from faction `from`.
pub proof fn lemma_first_failure_from(assets: Seq<FactionAsset>, from: int, at: int)
    requires
        0 <= from <= at < assets.len(),
        forall|j: int|
            from <= j < at ==> first_unknown_unit(
                (#[trigger] assets[j]).buildings@,
                assets[j].units@,
            ) is None,
    ensures
        first_unknown_in_factions(assets, from) == match first_unknown_unit(
            assets[at].buildings@,
            assets[at].units@,
        ) {
            Some(missing) => Some(missing),
            None => first_unknown_in_factions(assets, at + 1),
        },
    decreases at - from,
{
    if from < at {
        assert(first_unknown_unit(assets[from].buildings@, assets[from].units@) is None);
        lemma_first_failure_from(assets, from + 1, at);
    }
}

/// Where no faction from `from` on has a dangling reference, the list has
/// none from there on.
pub proof fn lemma_no_failure(assets: Seq<FactionAsset>, from: int)
    requires
        0 <= from,
        forall|j: int|
            from <= j < assets.len() ==> first_unknown_unit(
                (#[trigger] assets[j]).buildings@,
                assets[j].units@,
            ) is None,
    ensures
        first_unknown_in_factions(assets, from) is None,
    decreases assets.len() - from,
{
    if from < assets.len() {
        assert(first_unknown_unit(assets[from].buildings@, assets[from].units@) is None);
        lemma_no_failure(assets, from + 1);
    }
}

} // verus!
