use vstd::prelude::*;

verus! {

/// Why a simulation stopped.
#[derive(Clone, Copy, Debug, PartialEq, Eq, Structural)]
pub enum SimulationHaltCauses {
    /// The simulation has not stopped, or gave no cause.
    Unknown,
    /// No neutrons were left to follow.
    NoNeutrons,
    /// The neutron population grew past its limit.
    NeutronCountExceeded,
    /// The last generation to simulate was reached.
    MaximumGenerationReached,
}

impl Default for SimulationHaltCauses {
    fn default() -> (c: SimulationHaltCauses)
        ensures
            c == SimulationHaltCauses::Unknown,
    {
        SimulationHaltCauses::Unknown
    }
}

} // verus!
