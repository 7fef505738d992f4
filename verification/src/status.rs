//! Execution status of a machine.

use vstd::prelude::*;

verus! {

/// Where a machine stands in its life cycle. A machine has exactly one status
/// at any time.
#[derive(Clone, Copy, Debug, PartialEq, Eq, Hash, Structural)]
pub enum MachineStatus {
    /// No program could be loaded; the machine never runs.
    Invalid,
    /// A program is in memory, and the machine waits to be made ready.
    Loaded,
    /// The machine will start to run at its next step.
    Ready,
    /// The machine executes instructions.
    Running,
    /// The machine waits for a message.
    Awaiting,
    /// The machine counts down a sleep.
    Sleeping,
    /// The program ran to its end.
    Halted,
    /// An instruction or the watchdog failed the machine.
    Errored,
}

impl MachineStatus {
    /// A status that no step leaves: halted, errored or invalid.
    pub open spec fn is_terminal_spec(self) -> bool {
        self == MachineStatus::Halted || self == MachineStatus::Errored || self
            == MachineStatus::Invalid
    }

    /// A status in which the machine may still send a message: running or
    /// ready.
    pub open spec fn is_active_spec(self) -> bool {
        self == MachineStatus::Running || self == MachineStatus::Ready
    }

    /// A status in which a step does nothing at all: a terminal one, or
    /// loaded.
    pub open spec fn is_inert_spec(self) -> bool {
        self.is_terminal_spec() || self == MachineStatus::Loaded
    }

    /// Tells whether no step leaves this status.
    pub fn is_terminal(self) -> (b: bool)
        ensures
            b == self.is_terminal_spec(),
    {
        match self {
            MachineStatus::Halted | MachineStatus::Errored | MachineStatus::Invalid => true,
            _ => false,
        }
    }

    /// Tells whether a machine of this status may still send a message.
    pub fn is_active(self) -> (b: bool)
        ensures
            b == self.is_active_spec(),
    {
        match self {
            MachineStatus::Running | MachineStatus::Ready => true,
            _ => false,
        }
    }

    /// Tells whether a step does nothing on a machine of this status.
    pub fn is_inert(self) -> (b: bool)
        ensures
            b == self.is_inert_spec(),
    {
        match self {
            MachineStatus::Halted | MachineStatus::Errored | MachineStatus::Invalid
            | MachineStatus::Loaded => true,
            _ => false,
        }
    }
}

} // verus!
