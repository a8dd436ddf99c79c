//! The solvers: from forces to the movement they give, and from a wanted
//! movement to forces and thruster commands within a current budget.
pub mod forward;
pub mod reverse;
