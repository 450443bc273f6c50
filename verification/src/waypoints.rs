//! Waypoints, and the start of each team's path.

use vstd::prelude::*;
use crate::entity::Entity;
use crate::geometry::{dist2, Point};
use crate::teams::{Team, TeamAssociation};
use crate::world::{Components, World, WorldState};

verus! {

/// A node of a path. `next_waypoint` leads on; a path may loop back.
#[derive(Clone, Copy, Debug, PartialEq, Eq, Hash, Structural)]
pub struct Waypoint {
    pub next_waypoint: Option<Entity>,
}

/// Whether a waypoint is one at which units of its team set out.
#[derive(Clone, Copy, Debug, PartialEq, Eq, Hash, Structural)]
pub struct IsStartPoint(pub bool);

impl Default for IsStartPoint {
    fn default() -> (s: IsStartPoint)
        ensures
            s == IsStartPoint(false),
    {
        IsStartPoint(false)
    }
}

impl IsStartPoint {
    /// Reads the flag from the value of a level entity's `isStartPoint`
    /// field.
    pub fn from_field(is_start_point: bool) -> (s: IsStartPoint)
        ensures
            s == IsStartPoint(is_start_point),
    {
        IsStartPoint(is_start_point)
    }
}

/// The first position in `points` that is nearest to `from`, `None` for an
/// empty list.
pub open spec fn nearest(points: Seq<(Entity, Point)>, from: Point) -> Option<int>
    decreases points.len(),
{
    if points.len() == 0 {
        None
    } else {
        let last = points.len() - 1;
        match nearest(points.drop_last(), from) {
            Some(best) => if dist2(points[last].1, from) < dist2(points[best].1, from) {
                Some(last)
            } else {
                Some(best)
            },
            None => Some(last),
        }
    }
}

/// `nearest` picks a position of the list, no other position is nearer, and
/// none before it is as near.
pub proof fn law_nearest_start_point(points: Seq<(Entity, Point)>, from: Point)
    ensures
        points.len() == 0 <==> nearest(points, from) is None,
        nearest(points, from) matches Some(best) ==> {
            &&& 0 <= best < points.len()
            &&& forall|k: int|
                0 <= k < points.len() ==> dist2(points[best].1, from) <= dist2(points[k].1, from)
            &&& forall|k: int|
                0 <= k < best ==> dist2(points[best].1, from) < dist2(points[k].1, from)
        },
    decreases points.len(),
{
    if points.len() > 0 {
        let front = points.drop_last();
        law_nearest_start_point(front, from);
        let last = points.len() - 1;
        match nearest(front, from) {
            Some(best) => {
                assert(front[best] == points[best]);
                assert forall|k: int| 0 <= k < last implies front[k] == points[k] by {}
                let chosen = nearest(points, from)->0;
                assert forall|k: int| 0 <= k < points.len() implies dist2(
                    points[chosen].1,
                    from,
                ) <= dist2(points[k].1, from) by {
                    if k < last {
                        assert(front[k] == points[k]);
                    }
                }
                assert forall|k: int| 0 <= k < chosen implies dist2(points[chosen].1, from)
                    < dist2(points[k].1, from) by {
                    assert(front[k] == points[k]);
                }
            },
            None => {},
        }
    }
}

/// The start waypoints of the teams, kept in a hash map by team number.
#[verifier::external_body]
#[derive(Debug)]
pub struct StartPointTable {
    map: bevy::utils::HashMap<u8, Vec<(Entity, Point)>>,
}

/// What a table of start waypoints holds: the list of each team number
/// that it knows.
pub type StartLists = Map<u8, Seq<(Entity, Point)>>;

/// The entries of a table of start waypoints: for each team number that it
/// knows, the team's list.
pub uninterp spec fn start_point_entries(table: StartPointTable) -> Map<u8, Seq<(Entity, Point)>>;

/// The list that `entries` has for `key`; empty where it has none.
pub open spec fn list_of(entries: Map<u8, Seq<(Entity, Point)>>, key: u8) -> Seq<(Entity, Point)> {
    if entries.contains_key(key) {
        entries[key]
    } else {
        Seq::empty()
    }
}

/// `Default::default` of hashbrown's `HashMap`, which bevy's `HashMap` is: a
/// table without entries.
#[verifier::external_body]
fn start_points_new() -> (table: StartPointTable)
    ensures
        start_point_entries(table) == StartLists::empty(),
{
    StartPointTable { map: bevy::utils::HashMap::default() }
}

/// `get` of hashbrown's `HashMap`: the list that the table has for `key`,
/// `None` where it has no entry for it.
#[verifier::external_body]
fn start_points_get(table: &StartPointTable, key: u8) -> (list: Option<&Vec<(Entity, Point)>>)
    ensures
        list is Some <==> start_point_entries(*table).contains_key(key),
        list matches Some(found) ==> found@ == start_point_entries(*table)[key],
{
    table.map.get(&key)
}

/// `entry` of hashbrown's `HashMap` with `or_insert` of its `Entry`: the list
/// that the table has for `key`, to be changed in place. A table without an
/// entry for `key` gets one with an empty list first. Afterwards `key` leads
/// to the list as the caller left it, and every other key to what it led to.
#[verifier::external_body]
fn start_points_entry(table: &mut StartPointTable, key: u8) -> (list: &mut Vec<(Entity, Point)>)
    ensures
        list@ == list_of(start_point_entries(*old(table)), key),
        start_point_entries(*final(table)) == start_point_entries(*old(table)).insert(
            key,
            final(list)@,
        ),
{
    table.map.entry(key).or_insert(Vec::new())
}

/// The number that a team has in a table of start waypoints.
pub open spec fn team_key(team: Team) -> u8 {
    match team {
        Team::Gaia => 0,
        Team::Red => 1,
        Team::Blue => 2,
    }
}

/// The start waypoints of each team, with their positions.
#[derive(Debug)]
pub struct WaypointMap {
    start_point_waypoints: StartPointTable,
}

/// The contents of a [`WaypointMap`]: each team's start waypoints in the
/// order in which they were added.
pub struct StartPoints {
    pub gaia: Seq<(Entity, Point)>,
    pub red: Seq<(Entity, Point)>,
    pub blue: Seq<(Entity, Point)>,
}

impl StartPoints {
    /// No start waypoint for any team.
    pub open spec fn none() -> StartPoints {
        StartPoints { gaia: Seq::empty(), red: Seq::empty(), blue: Seq::empty() }
    }

    /// The start waypoints of `team`.
    pub open spec fn of(self, team: Team) -> Seq<(Entity, Point)> {
        match team {
            Team::Gaia => self.gaia,
            Team::Red => self.red,
            Team::Blue => self.blue,
        }
    }

    /// The contents after `waypoint` was added for `team`.
    pub open spec fn with(self, waypoint: Entity, team: Team, position: Point) -> StartPoints {
        match team {
            Team::Gaia => StartPoints { gaia: self.gaia.push((waypoint, position)), ..self },
            Team::Red => StartPoints { red: self.red.push((waypoint, position)), ..self },
            Team::Blue => StartPoints { blue: self.blue.push((waypoint, position)), ..self },
        }
    }

    /// The start waypoint of `team` that a unit at `position` sets out for:
    /// the nearest, and of several equally near ones the first.
    pub open spec fn closest(self, position: Point, team: Team) -> Option<Entity> {
        match nearest(self.of(team), position) {
            Some(best) => Some(self.of(team)[best].0),
            None => None,
        }
    }
}

impl WaypointMap {
    /// The contents of the map.
    pub closed spec fn view(&self) -> StartPoints {
        let entries = start_point_entries(self.start_point_waypoints);
        StartPoints {
            gaia: list_of(entries, team_key(Team::Gaia)),
            red: list_of(entries, team_key(Team::Red)),
            blue: list_of(entries, team_key(Team::Blue)),
        }
    }

    /// The start waypoints of `team`, in the order in which they were added.
    pub open spec fn start_points(&self, team: Team) -> Seq<(Entity, Point)> {
        self@.of(team)
    }

    /// A map without start waypoints.
    pub fn new() -> (map: WaypointMap)
        ensures
            map@ == StartPoints::none(),
    {
        WaypointMap { start_point_waypoints: start_points_new() }
    }

    /// The number that `team` has in the table.
    fn key(team: Team) -> (key: u8)
        ensures
            key == team_key(team),
    {
        match team {
            Team::Gaia => 0,
            Team::Red => 1,
            Team::Blue => 2,
        }
    }

    /// The list that the table has for `team`; `None` for a team that never
    /// had a start waypoint.
    fn team_list(&self, team: Team) -> (points: Option<&Vec<(Entity, Point)>>)
        ensures
            points matches Some(list) ==> list@ == self.start_points(team),
            points is None ==> self.start_points(team).len() == 0,
    {
        start_points_get(&self.start_point_waypoints, WaypointMap::key(team))
    }

    /// The start waypoints of `team`, in the order in which they were added.
    pub fn team_start_points(&self, team: Team) -> (points: Vec<(Entity, Point)>)
        ensures
            points@ == self.start_points(team),
    {
        let mut points: Vec<(Entity, Point)> = Vec::new();
        if let Some(list) = self.team_list(team) {
            let mut k: usize = 0;
            while k < list.len()
                invariant
                    k <= list@.len(),
                    points@ == list@.subrange(0, k as int),
                decreases list@.len() - k,
            {
                points.push(list[k]);
                k += 1;
            }
            assert(list@.subrange(0, k as int) =~= list@);
        }
        points
    }

    /// Records a waypoint. Only a start point is entered, at the end of its
    /// team's list; any other waypoint leaves the map as it is.
    pub fn add_start_waypoint(
        &mut self,
        waypoint: Entity,
        team: Team,
        position: Point,
        is_start_point: IsStartPoint,
    )
        ensures
            final(self)@ == if is_start_point.0 {
                old(self)@.with(waypoint, team, position)
            } else {
                old(self)@
            },
    {
        if is_start_point.0 {
            let team_waypoint_list = start_points_entry(
                &mut self.start_point_waypoints,
                WaypointMap::key(team),
            );
            team_waypoint_list.push((waypoint, position));
        }
    }

    /// The start waypoint of `team` nearest to `current_position` by squared
    /// distance; of several equally near ones, the one added first. `None`
    /// where the team has no start waypoint.
    pub fn get_closest_start_waypoint(&self, current_position: Point, team: Team) -> (r: Option<
        Entity,
    >)
        ensures
            r == self@.closest(current_position, team),
    {
        let points = match self.team_list(team) {
            Some(points) => points,
            None => {
                return None;
            },
        };
        if points.len() == 0 {
            return None;
        }
        let mut best: usize = 0;
        let mut best_distance: u128 = points[0].1.distance_squared(current_position);
        let mut k: usize = 1;
        assert(points@.subrange(0, 1).drop_last().len() == 0);
        assert(nearest(points@.subrange(0, 1).drop_last(), current_position) is None);
        while k < points.len()
            invariant
                1 <= k <= points@.len(),
                best < k,
                best_distance == dist2(points@[best as int].1, current_position),
                nearest(points@.subrange(0, k as int), current_position) == Some(best as int),
            decreases points@.len() - k,
        {
            let distance: u128 = points[k].1.distance_squared(current_position);
            assert(points@.subrange(0, k + 1).drop_last() =~= points@.subrange(0, k as int));
            if distance < best_distance {
                best = k;
                best_distance = distance;
            }
            k += 1;
        }
        assert(points@.subrange(0, k as int) =~= points@);
        Some(points[best].0)
    }
}

impl WorldState {
    /// The components of a waypoint at `position` that leads on to
    /// `next_waypoint`.
    pub open spec fn waypoint_components(position: Point, next_waypoint: Option<Entity>) -> Components {
        Components {
            position: Some(position),
            waypoint: Some(Waypoint { next_waypoint }),
            ..Components::bare()
        }
    }

    /// The world with one more entity: a waypoint of `team`'s path. A start
    /// point is entered among the team's start waypoints.
    pub open spec fn with_waypoint(
        self,
        position: Point,
        team: Team,
        is_start_point: bool,
        next_waypoint: Option<Entity>,
    ) -> WorldState {
        WorldState {
            entities: self.entities.push(WorldState::waypoint_components(position, next_waypoint)),
            in_vision: self.in_vision.push(None),
            start_points: if is_start_point {
                self.start_points.with(Entity(self.entities.len() as u64), team, position)
            } else {
                self.start_points
            },
            ..self
        }
    }
}

/// Side length of the sample paths: five grid cells of 32 world units, in
/// sub-units.
pub const SAMPLE_PATH_SIDE: i32 = 160_000;

impl WorldState {
    /// The world with a sample path for `team`: three waypoints in a loop,
    /// from the origin up and then `across` sideways, the first of them a
    /// start point.
    pub open spec fn with_sample_path(self, team: Team, across: int) -> WorldState {
        let third = Entity(self.entities.len() as u64);
        let second = Entity((self.entities.len() + 1) as u64);
        let first = Entity((self.entities.len() + 2) as u64);
        self.with_waypoint(
            Point { x: across as i32, y: SAMPLE_PATH_SIDE },
            team,
            false,
            None,
        ).with_waypoint(Point { x: 0, y: SAMPLE_PATH_SIDE }, team, false, Some(third)).with_waypoint(
            Point { x: 0, y: 0 },
            team,
            true,
            Some(second),
        ).linked(third, Waypoint { next_waypoint: Some(first) })
    }
}

impl World {
    /// Adds a sample path for `team`: three waypoints in a loop, from the
    /// origin up and then `across` sideways. Returns the first, which is the
    /// path's start point.
    pub fn add_sample_path(&mut self, team: Team, across: i32) -> (first: Entity)
        requires
            old(self).wf(),
        ensures
            final(self).wf(),
            first.index() == old(self)@.len() + 2,
            final(self)@ == old(self)@.with_sample_path(team, across as int),
    {
        let association = TeamAssociation(team);
        let third = self.add_start_waypoints_to_resources(
            across,
            SAMPLE_PATH_SIDE,
            association,
            IsStartPoint(false),
            None,
        );
        let second = self.add_start_waypoints_to_resources(
            0,
            SAMPLE_PATH_SIDE,
            association,
            IsStartPoint(false),
            Some(third),
        );
        let first = self.add_start_waypoints_to_resources(
            0,
            0,
            association,
            IsStartPoint(true),
            Some(second),
        );
        let mut c = self.components(third);
        proof {
            assert(self@.admits(third.index(), self@.entities[third.index()]));
        }
        c.waypoint = Some(Waypoint { next_waypoint: Some(first) });
        let done = self.update(third, c);
        first
    }

    /// Adds two sample paths: a loop for the red team to the left of the
    /// origin and one for the blue team to the right. Returns the start
    /// points of the two.
    pub fn add_waypoints(&mut self) -> (starts: (Entity, Entity))
        requires
            old(self).wf(),
        ensures
            final(self).wf(),
            starts.0.index() == old(self)@.len() + 2,
            starts.1.index() == old(self)@.len() + 5,
            final(self)@ == old(self)@.with_sample_path(
                Team::Red,
                -SAMPLE_PATH_SIDE as int,
            ).with_sample_path(Team::Blue, SAMPLE_PATH_SIDE as int),
    {
        let red = self.add_sample_path(Team::Red, -SAMPLE_PATH_SIDE);
        let blue = self.add_sample_path(Team::Blue, SAMPLE_PATH_SIDE);
        (red, blue)
    }

    /// Adds a waypoint at `(x, y)` to the path of a team, and enters it among
    /// the team's start waypoints where it is a start point. The waypoint
    /// belongs with the team without being of it: nobody perceives it.
    pub fn add_start_waypoints_to_resources(
        &mut self,
        x: i32,
        y: i32,
        team_association: TeamAssociation,
        is_start_point: IsStartPoint,
        next_waypoint: Option<Entity>,
    ) -> (waypoint: Entity)
        requires
            old(self).wf(),
        ensures
            final(self).wf(),
            waypoint.index() == old(self)@.len(),
            final(self)@ == old(self)@.with_waypoint(
                Point { x, y },
                team_association.0,
                is_start_point.0,
                next_waypoint,
            ),
    {
        let position = Point { x, y };
        let mut c = Components::new();
        c.position = Some(position);
        c.waypoint = Some(Waypoint { next_waypoint });
        let waypoint = Entity(self.entities.len() as u64);
        let spawned = self.spawn(c, None);
        self.waypoint_map.add_start_waypoint(waypoint, team_association.0, position, is_start_point);
        waypoint
    }
}

} // verus!
