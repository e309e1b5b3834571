//! RustyRacer engine core: entity/component storage, scheduling, assets and
//! gameplay state machines, with their behaviour stated and proved.
#![allow(unused_imports)]

pub mod engine_core;
pub mod ecs;
pub mod assets;
pub mod utils;
pub mod editor;
pub mod physics;
pub mod racing_lib;
pub mod networking;
pub mod render;
pub mod audio;
pub mod optimization;
pub mod platform;
