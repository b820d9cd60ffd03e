//! The order of the phases of one timestep.
//!
//! The order matters: the right-hand side of the pressure equation reads the
//! predictor values that the boundary rules and the predictor have just
//! set, and the corrector reads the pressure that the relaxation has just
//! produced.

use vstd::prelude::*;

verus! {

/// A phase of one timestep.
#[derive(Clone, Copy, Debug, PartialEq, Eq, Structural)]
pub enum Phase {
    /// Boundary rules: velocities.
    BoundaryVelocities,
    /// Boundary rules: pressures and predictor values.
    BoundaryPressures,
    /// Predictor velocities of the fluid cells.
    Predictor,
    /// Right-hand side of the pressure equation.
    RightHandSide,
    /// Relaxation of the pressure field.
    Relaxation,
    /// Projection of the predictor velocities onto the pressure gradient.
    Corrector,
    /// Stream function and value ranges.
    PostProcessing,
    /// Advance of the simulated time.
    AdvanceTime,
}

impl Phase {
    /// The position of the phase in a timestep, counted from 0.
    pub open spec fn position(self) -> nat {
        match self {
            Phase::BoundaryVelocities => 0,
            Phase::BoundaryPressures => 1,
            Phase::Predictor => 2,
            Phase::RightHandSide => 3,
            Phase::Relaxation => 4,
            Phase::Corrector => 5,
            Phase::PostProcessing => 6,
            Phase::AdvanceTime => 7,
        }
    }

    /// The phase with which a timestep begins.
    pub fn first() -> (r: Phase)
        ensures
            r.position() == 0,
    {
        Phase::BoundaryVelocities
    }

    /// The phase that follows this one, and `None` after the last.
    pub fn next(self) -> (r: Option<Phase>)
        ensures
            r is None <==> self.position() == 7,
            r matches Some(p) ==> p.position() == self.position() + 1,
    {
        match self {
            Phase::BoundaryVelocities => Some(Phase::BoundaryPressures),
            Phase::BoundaryPressures => Some(Phase::Predictor),
            Phase::Predictor => Some(Phase::RightHandSide),
            Phase::RightHandSide => Some(Phase::Relaxation),
            Phase::Relaxation => Some(Phase::Corrector),
            Phase::Corrector => Some(Phase::PostProcessing),
            Phase::PostProcessing => Some(Phase::AdvanceTime),
            Phase::AdvanceTime => None,
        }
    }
}

/// A phase is fixed by its position: no two phases share one.
pub proof fn lemma_position_is_injective(a: Phase, b: Phase)
    requires
        a.position() == b.position(),
    ensures
        a == b,
{
}

} // verus!
