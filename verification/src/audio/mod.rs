//! Audio components.

pub mod components;

pub use components::AudioListener;
