//! Vehicle data kinds.

use vstd::prelude::*;

verus! {

/// Surface types for friction calculations.
#[derive(Debug, Clone, Copy, PartialEq, Eq, Hash, Structural)]
pub enum SurfaceType {
    Tarmac,
    WetTarmac,
    Gravel,
    Grass,
    Ice,
    Sand,
    Kerb,
}

/// Drive type configuration.
#[derive(Debug, Clone, Copy, PartialEq, Eq, Structural)]
pub enum DriveType {
    FrontWheelDrive,
    RearWheelDrive,
    AllWheelDrive,
}

/// Transmission type.
#[derive(Debug, Clone, Copy, PartialEq, Eq, Structural)]
pub enum TransmissionType {
    Manual,
    Automatic,
    Sequential,
}

impl DriveType {
    /// Whether the engine drives the front wheels.
    pub fn drives_front(&self) -> (r: bool)
        ensures
            r == (*self == DriveType::FrontWheelDrive || *self == DriveType::AllWheelDrive),
    {
        match self {
            DriveType::FrontWheelDrive => true,
            DriveType::RearWheelDrive => false,
            DriveType::AllWheelDrive => true,
        }
    }

    /// Whether the engine drives the rear wheels.
    pub fn drives_rear(&self) -> (r: bool)
        ensures
            r == (*self == DriveType::RearWheelDrive || *self == DriveType::AllWheelDrive),
    {
        match self {
            DriveType::FrontWheelDrive => false,
            DriveType::RearWheelDrive => true,
            DriveType::AllWheelDrive => true,
        }
    }

    /// Number of driven wheels among which the wheel torque is shared.
    pub fn driven_wheel_count(&self) -> (r: u32)
        ensures
            r == (if *self == DriveType::AllWheelDrive { 4u32 } else { 2u32 }),
    {
        match self {
            DriveType::FrontWheelDrive => 2,
            DriveType::RearWheelDrive => 2,
            DriveType::AllWheelDrive => 4,
        }
    }
}

} // verus!
