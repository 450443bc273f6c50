//! Settings of the player whose match is simulated.

use vstd::prelude::*;
use crate::load_factions::FactionBlueprint;
use crate::teams::Team;

verus! {

/// The player's team and the faction whose blueprints the match uses.
#[derive(Debug)]
pub struct PlayerSettings {
    pub team: Team,
    pub faction: FactionBlueprint,
}

} // verus!
