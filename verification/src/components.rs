//! State that the vehicle and the surface station share about the vehicle.
use vstd::prelude::*;

verus! {

/// Marks the one entity that holds state global to a peer.
#[derive(Debug, Clone, PartialEq, Default)]
pub struct Singleton;

/// Marks the entity that stands for the vehicle.
#[derive(Debug, Clone, PartialEq, Default)]
pub struct Robot;

/// Marks the entity that stands for the surface station.
#[derive(Debug, Clone, PartialEq, Default)]
pub struct Surface;

/// Whether water was detected inside the hull.
#[derive(Debug, Copy, Clone, PartialEq, Default)]
pub struct Leak(pub bool);

#[derive(Debug, Copy, Clone, PartialEq, Default)]
pub enum RobotStatus {
    /// No peer is connected
    #[default]
    NoPeer,
    /// Peer is connected and robot is disarmed
    Disarmed,
    /// Peer is connected and robot is armed
    Armed,
}

#[derive(Debug, Copy, Clone, PartialEq, Eq, Default)]
pub enum Armed {
    Armed,
    #[default]
    Disarmed,
}

/// Memory and swap in use, in bytes.
#[derive(Debug, Clone, PartialEq)]
pub struct Memory {
    pub total_mem: u64,
    pub used_mem: u64,
    pub free_mem: u64,
    pub total_swap: u64,
    pub used_swap: u64,
    pub free_swap: u64,
}

#[derive(Debug, Clone, PartialEq)]
pub struct OperatingSystem {
    pub name: Option<String>,
    pub kernel_version: Option<String>,
    pub os_version: Option<String>,
    pub distro: Option<String>,
    pub host_name: Option<String>,
}

/// The servos of a vehicle, by name.
#[derive(Debug, Clone, PartialEq)]
pub struct Servos {
    pub servos: Vec<String>,
}

#[derive(Debug, Clone, PartialEq)]
pub enum ServoMode {
    Position,
    Velocity,
}

/// Present while an operator drives the PWM outputs by hand.
#[derive(Debug, Clone, Copy, Eq, PartialEq, Default)]
pub struct PwmManualControl;

} // verus!
