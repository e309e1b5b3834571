//! Physics: body kinds and the discrete parts of the vehicle model.

pub mod components;
pub mod vehicle;
