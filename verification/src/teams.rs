//! Sides of a match and the friend-or-foe rule.

use vstd::prelude::*;

verus! {

/// The side an entity fights for. `Gaia` is the neutral side. An entity keeps
/// its team for life.
#[derive(Clone, Copy, Debug, PartialEq, Eq, Hash, Structural)]
pub enum Team {
    Gaia,
    Red,
    Blue,
}

/// The colour a team is drawn in.
#[derive(Clone, Copy, Debug, PartialEq, Eq, Hash, Structural)]
pub enum TeamColor {
    Gray,
    Red,
    Blue,
}

/// The team that a level file calls `name`, if any.
pub open spec fn team_named(name: Seq<char>) -> Option<Team> {
    if name == "GAIA"@ {
        Some(Team::Gaia)
    } else if name == "RED"@ {
        Some(Team::Red)
    } else if name == "BLUE"@ {
        Some(Team::Blue)
    } else {
        None
    }
}

/// Whether two strings hold the same text.
fn same_text(a: &str, b: &str) -> (r: bool)
    ensures
        r == (a@ == b@),
{
    let a_owned: String = a.to_owned();
    let b_owned: String = b.to_owned();
    a_owned == b_owned
}

impl Default for Team {
    fn default() -> (t: Team)
        ensures
            t == Team::Gaia,
    {
        Team::Gaia
    }
}

impl Team {
    /// Friend-or-foe: two entities are friends exactly when their teams are
    /// equal. Nothing else is consulted.
    pub open spec fn is_friend_of(self, other: Team) -> bool {
        self == other
    }

    /// The name a level file uses for the team.
    pub open spec fn spec_name(self) -> Seq<char> {
        match self {
            Team::Gaia => "GAIA"@,
            Team::Red => "RED"@,
            Team::Blue => "BLUE"@,
        }
    }

    /// Whether `other` fights on the same side.
    pub fn same_side(self, other: Team) -> (r: bool)
        ensures
            r == self.is_friend_of(other),
    {
        self == other
    }

    /// The colour of the team's labels.
    pub fn get_color(&self) -> (c: TeamColor)
        ensures
            c == match *self {
                Team::Gaia => TeamColor::Gray,
                Team::Red => TeamColor::Red,
                Team::Blue => TeamColor::Blue,
            },
    {
        match self {
            Team::Gaia => TeamColor::Gray,
            Team::Red => TeamColor::Red,
            Team::Blue => TeamColor::Blue,
        }
    }

    /// The team's name in upper case, as level files write it.
    pub fn name(&self) -> (s: String)
        ensures
            s@ == self.spec_name(),
    {
        match self {
            Team::Gaia => "GAIA".to_owned(),
            Team::Red => "RED".to_owned(),
            Team::Blue => "BLUE".to_owned(),
        }
    }

    /// Reads a team from the value of a level entity's `team` field. `None`
    /// for any value but `GAIA`, `RED` and `BLUE`.
    pub fn from_field(team_field: &str) -> (t: Option<Team>)
        ensures
            t == team_named(team_field@),
    {
        if same_text(team_field, "GAIA") {
            Some(Team::Gaia)
        } else if same_text(team_field, "RED") {
            Some(Team::Red)
        } else if same_text(team_field, "BLUE") {
            Some(Team::Blue)
        } else {
            None
        }
    }
}

/// Marks an entity that belongs with a team without fighting for it, such as
/// a waypoint of the team's path.
#[derive(Clone, Copy, Debug, PartialEq, Eq, Hash, Structural)]
pub struct TeamAssociation(pub Team);

impl Default for TeamAssociation {
    fn default() -> (t: TeamAssociation)
        ensures
            t == TeamAssociation(Team::Gaia),
    {
        TeamAssociation(Team::Gaia)
    }
}

impl TeamAssociation {
    /// Reads the association from the value of a level entity's `team` field.
    pub fn from_field(team_field: &str) -> (t: Option<TeamAssociation>)
        ensures
            t == match team_named(team_field@) {
                Some(team) => Some(TeamAssociation(team)),
                None => None,
            },
    {
        match Team::from_field(team_field) {
            Some(team) => Some(TeamAssociation(team)),
            None => None,
        }
    }
}

/// A level name is read back as the team it names.
pub proof fn law_team_name_round_trip(team: Team)
    ensures
        team_named(team.spec_name()) == Some(team),
{
    reveal_strlit("GAIA");
    reveal_strlit("RED");
    reveal_strlit("BLUE");
    assert("GAIA"@.len() == 4);
    assert("RED"@.len() == 3);
    assert("BLUE"@.len() == 4);
    assert("GAIA"@[0] == 'G');
    assert("BLUE"@[0] == 'B');
}

} // verus!
