//! Vehicle model: surface, drive and transmission kinds, and gear selection.

pub mod data;
pub mod drivetrain;

pub use data::{DriveType, SurfaceType, TransmissionType};
