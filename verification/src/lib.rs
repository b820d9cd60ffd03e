//! Verified grid logic of a staggered-grid incompressible-flow solver.
//!
//! The crate holds the discrete side of the solver: the cell taxonomy, the
//! rectangular layout with its bounds-checked neighbour queries, the rules by
//! which a boundary cell is resolved against an adjacent fluid cell, and the
//! sweep control of the pressure relaxation.

pub mod cell;
pub mod layout;
pub mod boundary;
pub mod relaxation;
pub mod timestep;
