//! Thrust allocation for underwater vehicles: thruster geometry, tabulated
//! thruster performance, forward and reverse solvers, and current limiting.
//!
//! Axes: +X right, +Y forwards, +Z up.
//! Rotations: +XR pitch up, +YR roll clockwise, +ZR yaw counter clockwise (top view).
pub mod blue_rov;
pub mod components;
pub mod config;
pub mod direction;
pub mod motor_config;
pub mod motor_performance;
pub mod movement;
pub mod number;
pub mod solve;
pub mod utils;
pub mod vector;
pub mod x3d;

pub use direction::Direction;
pub use motor_config::{ErasedMotorId, Motor, MotorConfig, MotorId};
pub use movement::Movement;
pub use number::{Number, Real};
pub use vector::Vector3;
