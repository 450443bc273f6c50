//! The states of the application and the keys that change them.

use vstd::prelude::*;
use crate::game::SimulationState;
use crate::load_factions::Factions;

verus! {

/// What the application is showing.
#[derive(Clone, Copy, Debug, PartialEq, Eq, Hash, Structural)]
pub enum AppState {
    LoadGameAssets,
    MainMenu,
    Game,
}

impl Default for AppState {
    fn default() -> (s: AppState)
        ensures
            s == AppState::LoadGameAssets,
    {
        AppState::LoadGameAssets
    }
}

/// The clock of the simulation, which a pause stops.
#[derive(Clone, Copy, Debug, PartialEq, Eq, Hash, Structural)]
pub struct VirtualTime {
    pub paused: bool,
}

impl VirtualTime {
    /// The simulated time that passes while `elapsed` microseconds go by: all
    /// of it, or none while the clock is paused.
    pub open spec fn spec_delta(self, elapsed: u32) -> u32 {
        if self.paused {
            0
        } else {
            elapsed
        }
    }

    /// A running clock.
    pub fn new() -> (time: VirtualTime)
        ensures
            !time.paused,
    {
        VirtualTime { paused: false }
    }

    /// The simulated time that passes while `elapsed` microseconds go by.
    pub fn delta(&self, elapsed: u32) -> (dt: u32)
        ensures
            dt == self.spec_delta(elapsed),
    {
        if self.paused {
            0
        } else {
            elapsed
        }
    }
}

/// The state that the simulation goes to when the pause key was
/// (`toggle`) or was not pressed: the other state, or none.
pub open spec fn toggled(toggle: bool, current: SimulationState) -> Option<SimulationState> {
    if toggle {
        match current {
            SimulationState::Running => Some(SimulationState::Paused),
            SimulationState::Paused => Some(SimulationState::Running),
        }
    } else {
        None
    }
}

/// Pauses a running simulation and resumes a paused one when the pause key
/// was pressed. Returns the state to go to, if any.
pub fn toggle_simulation(toggle: bool, simulation_state: SimulationState) -> (next: Option<
    SimulationState,
>)
    ensures
        next == toggled(toggle, simulation_state),
{
    if toggle {
        match simulation_state {
            SimulationState::Running => Some(SimulationState::Paused),
            SimulationState::Paused => Some(SimulationState::Running),
        }
    } else {
        None
    }
}

/// Stops the clock of the simulation, on entering the paused state.
pub fn pause_simulation(time: &mut VirtualTime)
    ensures
        final(time).paused,
{
    time.paused = true;
}

/// Starts the clock of the simulation, on entering the running state.
pub fn unpause_simulation(time: &mut VirtualTime)
    ensures
        !final(time).paused,
{
    time.paused = false;
}

/// Starts a match when the key for it was pressed (`start`) outside a
/// match that runs or loads: the application goes on to load the match.
pub fn transition_to_game_state(start: bool, current_state: AppState) -> (next: Option<AppState>)
    ensures
        next == if start && current_state == AppState::MainMenu {
            Some(AppState::LoadGameAssets)
        } else {
            None
        },
{
    if start && current_state != AppState::Game && current_state != AppState::LoadGameAssets {
        Some(AppState::LoadGameAssets)
    } else {
        None
    }
}

/// Goes on from loading to the main menu once the factions are loaded.
/// Returns the state to go to, if any.
pub fn display_content(factions: Option<&Factions>) -> (next: Option<AppState>)
    ensures
        next == if factions is Some {
            Some(AppState::MainMenu)
        } else {
            None
        },
{
    match factions {
        Some(_) => Some(AppState::MainMenu),
        None => None,
    }
}

/// Leaves a match when the key for it was pressed (`leave`) during one: the
/// application goes back to the main menu.
pub fn transition_to_main_menu_state(leave: bool, current_state: AppState) -> (next: Option<
    AppState,
>)
    ensures
        next == if leave && current_state == AppState::Game {
            Some(AppState::MainMenu)
        } else {
            None
        },
{
    if leave && current_state == AppState::Game {
        Some(AppState::MainMenu)
    } else {
        None
    }
}

} // verus!
