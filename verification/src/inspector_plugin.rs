//! What a debugging inspector may show of the world, and when it is shown.

use vstd::prelude::*;

verus! {

/// A kind of component or resource that is open to inspection.
#[derive(Clone, Copy, Debug, PartialEq, Eq, Hash, Structural)]
pub enum InspectedType {
    Team,
    IsStartPoint,
    Waypoint,
    WaypointFollower,
    Health,
    MoveTarget,
    MoveToPoint,
    VisionRange,
    InVision,
    WaypointMap,
}

/// The kinds that are open to inspection, in the order in which they are
/// registered.
pub open spec fn inspected_types() -> Seq<InspectedType> {
    seq![
        InspectedType::WaypointMap,
        InspectedType::Team,
        InspectedType::IsStartPoint,
        InspectedType::Waypoint,
        InspectedType::WaypointFollower,
        InspectedType::Health,
        InspectedType::MoveTarget,
        InspectedType::MoveToPoint,
        InspectedType::VisionRange,
        InspectedType::InVision,
    ]
}

/// The switch of the inspector: on at first, and turned over by each press
/// of its key.
#[derive(Clone, Copy, Debug, PartialEq, Eq, Hash, Structural)]
pub struct InspectorPlugin {
    pub active: bool,
}

impl Default for InspectorPlugin {
    fn default() -> (plugin: InspectorPlugin)
        ensures
            plugin.active,
    {
        InspectorPlugin { active: true }
    }
}

impl InspectorPlugin {
    /// The switch after a frame in which its key was (`pressed`) or was not
    /// pressed.
    pub open spec fn toggled(self, pressed: bool) -> InspectorPlugin {
        InspectorPlugin { active: self.active != pressed }
    }

    /// An inspector that is shown.
    pub fn new() -> (plugin: InspectorPlugin)
        ensures
            plugin.active,
    {
        InspectorPlugin { active: true }
    }

    /// Takes note of a frame in which the inspector's key was (`pressed`) or
    /// was not pressed, and says whether the inspector is shown now.
    pub fn input_toggle_active(&mut self, pressed: bool) -> (shown: bool)
        ensures
            *final(self) == old(self).toggled(pressed),
            shown == final(self).active,
    {
        if pressed {
            self.active = !self.active;
        }
        self.active
    }

    /// The kinds that are open to inspection, in the order in which they
    /// are registered.
    pub fn build(&self) -> (kinds: Vec<InspectedType>)
        ensures
            kinds@ == inspected_types(),
    {
        let mut kinds: Vec<InspectedType> = Vec::new();
        kinds.push(InspectedType::WaypointMap);
        kinds.push(InspectedType::Team);
        kinds.push(InspectedType::IsStartPoint);
        kinds.push(InspectedType::Waypoint);
        kinds.push(InspectedType::WaypointFollower);
        kinds.push(InspectedType::Health);
        kinds.push(InspectedType::MoveTarget);
        kinds.push(InspectedType::MoveToPoint);
        kinds.push(InspectedType::VisionRange);
        kinds.push(InspectedType::InVision);
        assert(kinds@ =~= inspected_types());
        kinds
    }
}

} // verus!
