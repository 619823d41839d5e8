//! A two-dimensional grid fluid solver in the "stable fluids" style: scalar
//! density and a velocity field are advanced frame by frame by diffusion and
//! semi-Lagrangian advection on a square lattice with a one-cell border ring.
//!
//! The arithmetic of field values is supplied by the caller through the
//! [`Scalar`] trait; the lattice bookkeeping, the relaxation engine and the
//! buffer orchestration are verified here.

pub mod fluid;
pub mod grid;
pub mod relax;
pub mod scalar;

pub use fluid::{val_after_diff, DiffLinearEquationArgs, Fluid, FluidConfig};
pub use relax::{gauss_seidel, GaussSeidelFunction};
pub use scalar::Scalar;
