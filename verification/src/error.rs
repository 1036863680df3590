//! The ways in which building, assembling or solving a network can fail.

use vstd::prelude::*;

verus! {

#[derive(Clone, Copy, Debug, PartialEq, Eq, Structural)]
pub enum SimulationError {
    /// A branch has neither resistance nor reactance, so it has no admittance.
    DegenerateComponent,
    /// A component names a node that was never declared.
    UnresolvedNodeReference,
    /// A component's terminal is neither the ground nor an index of the system.
    OutOfRangeNodeReference,
    /// The system matrix cannot be factorised.
    SingularSystem,
}

impl SimulationError {
    /// A short description of the failure.
    pub fn message(&self) -> (text: &'static str)
        ensures
            text@ == match *self {
                SimulationError::DegenerateComponent => "branch with zero impedance"@,
                SimulationError::UnresolvedNodeReference => "component refers to an undeclared node"@,
                SimulationError::OutOfRangeNodeReference => "terminal index outside the system"@,
                SimulationError::SingularSystem => "system matrix is singular"@,
            },
    {
        match self {
            SimulationError::DegenerateComponent => "branch with zero impedance",
            SimulationError::UnresolvedNodeReference => "component refers to an undeclared node",
            SimulationError::OutOfRangeNodeReference => "terminal index outside the system",
            SimulationError::SingularSystem => "system matrix is singular",
        }
    }
}

} // verus!
