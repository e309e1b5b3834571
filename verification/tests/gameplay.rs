use std::collections::VecDeque;

use rustyracer_engine::audio::components::AudioListener;
use rustyracer_engine::ecs::system::System;
use rustyracer_engine::ecs::world::World;
use rustyracer_engine::editor::console::{is_blank, ConsoleCommand};
use rustyracer_engine::editor::profiler_ui::ProfilerUi;
use rustyracer_engine::networking::messages::{physics_input_channel, reliable_channel, unreliable_channel};
use rustyracer_engine::optimization::spatial_partition::VisibleEntities;
use rustyracer_engine::physics::vehicle::data::DriveType;
use rustyracer_engine::physics::vehicle::drivetrain::{automatic_gear, drive_gear_index, manual_gear, shifted_gear};
use rustyracer_engine::platform::input::KeyboardState;
use rustyracer_engine::racing_lib::components::{CameraMode, LapTimer};
use rustyracer_engine::racing_lib::race_manager::{CheckpointSystem, LapTimerSystem};
use rustyracer_engine::utils::bounded::{push_back_bounded, push_front_bounded};
use rustyracer_engine::utils::logging::{verbosity_of, LogVerbosity};

#[test]
fn console_parses_first_word_case_insensitively() {
    assert_eq!(ConsoleCommand::parse("help"), Some(ConsoleCommand::Help));
    assert_eq!(ConsoleCommand::parse("  HELP me  "), Some(ConsoleCommand::Help));
    assert_eq!(ConsoleCommand::parse("List_Entities"), Some(ConsoleCommand::ListEntities));
    assert_eq!(ConsoleCommand::parse("\ttoggle_gravity\n"), Some(ConsoleCommand::ToggleGravity));
    assert_eq!(ConsoleCommand::parse("clear"), Some(ConsoleCommand::Clear));
    assert_eq!(ConsoleCommand::parse("Spawn car"), Some(ConsoleCommand::Unknown("spawn".to_string())));
    assert_eq!(ConsoleCommand::parse("   "), None);
    assert_eq!(ConsoleCommand::parse(""), None);
    assert!(is_blank(" \t "));
    assert!(!is_blank(" x "));
}

#[test]
fn bounded_queues_trim_as_the_console_does() {
    let mut q: VecDeque<u32> = VecDeque::new();
    for i in 0..5 {
        push_back_bounded(&mut q, i, 3);
    }
    assert_eq!(q, VecDeque::from(vec![2, 3, 4]));
    let mut h: VecDeque<u32> = VecDeque::new();
    for i in 0..4 {
        push_front_bounded(&mut h, i, 2);
    }
    assert_eq!(h, VecDeque::from(vec![3, 2]));
    let mut z: VecDeque<u32> = VecDeque::new();
    push_back_bounded(&mut z, 1, 0);
    assert!(z.is_empty());
}

#[test]
fn keyboard_tracks_presses_and_releases() {
    let mut k = KeyboardState::new();
    k.process_key(7, true);
    assert!(k.is_key_pressed(7));
    assert!(k.is_key_just_pressed(7));
    k.clear_frame_state();
    assert!(k.is_key_pressed(7));
    assert!(!k.is_key_just_pressed(7));
    // Holding the key (repeat) does not make it "just pressed" again.
    k.process_key(7, true);
    assert!(!k.is_key_just_pressed(7));
    k.process_key(7, false);
    assert!(!k.is_key_pressed(7));
    assert!(k.is_key_just_released(7));
    k.clear_frame_state();
    assert!(!k.is_key_just_released(7));
}

#[test]
fn gears_stay_in_range() {
    assert_eq!(manual_gear(-1, 6), 0);
    assert_eq!(manual_gear(9, 6), 6);
    assert_eq!(manual_gear(3, 6), 3);
    assert_eq!(automatic_gear(3, 6, true, false), 4);
    assert_eq!(automatic_gear(6, 6, true, true), 5);
    assert_eq!(automatic_gear(1, 6, false, true), 1);
    assert_eq!(automatic_gear(2, 6, false, false), 2);
    assert_eq!(shifted_gear(6, 6, true, false), 6);
    assert_eq!(shifted_gear(0, 6, false, true), 0);
    assert_eq!(shifted_gear(2, 6, true, true), 2);
    assert_eq!(drive_gear_index(0, 6), None);
    assert_eq!(drive_gear_index(-1, 6), None);
    assert_eq!(drive_gear_index(7, 6), None);
    assert_eq!(drive_gear_index(1, 6), Some(0));
    assert_eq!(drive_gear_index(6, 6), Some(5));
}

#[test]
fn drive_types_pick_driven_wheels() {
    assert!(DriveType::FrontWheelDrive.drives_front());
    assert!(!DriveType::FrontWheelDrive.drives_rear());
    assert!(DriveType::RearWheelDrive.drives_rear());
    assert!(DriveType::AllWheelDrive.drives_front() && DriveType::AllWheelDrive.drives_rear());
    assert_eq!(DriveType::AllWheelDrive.driven_wheel_count(), 4);
    assert_eq!(DriveType::RearWheelDrive.driven_wheel_count(), 2);
}

#[test]
fn camera_modes_cycle_with_period_four() {
    let start = CameraMode::Cockpit;
    let seq: Vec<CameraMode> = std::iter::successors(Some(start), |m| Some(m.cycled())).take(5).collect();
    assert_eq!(
        seq,
        vec![CameraMode::Cockpit, CameraMode::Chase, CameraMode::Orbit, CameraMode::RearView, CameraMode::Cockpit]
    );
}

#[test]
fn log_verbosity_from_name() {
    assert_eq!(verbosity_of("error"), LogVerbosity::Error);
    assert_eq!(verbosity_of("warn"), LogVerbosity::Warn);
    assert_eq!(verbosity_of("debug"), LogVerbosity::Debug);
    assert_eq!(verbosity_of("trace"), LogVerbosity::Trace);
    assert_eq!(verbosity_of("info"), LogVerbosity::Info);
    assert_eq!(verbosity_of("loud"), LogVerbosity::Info);
}

#[test]
fn small_components_and_systems() {
    let mut p = ProfilerUi::default();
    assert!(!p.enabled);
    p.toggle();
    assert!(p.enabled);
    p.toggle();
    assert!(!p.enabled);
    assert!(AudioListener::default().active);
    assert!(VisibleEntities::default().entities.is_empty());
    let t = LapTimer::default();
    assert_eq!(t.checkpoints_passed, 0);
    assert!(t.best_lap_time.is_none() && t.lap_history.is_empty());
    assert_eq!(t.current_lap_time, std::time::Duration::ZERO);
    let mut w = World::new();
    let mut c = CheckpointSystem::new();
    c.initialize(&mut w);
    c.run(&mut w);
    let mut l = LapTimerSystem::default();
    l.run(&mut w);
    assert_eq!((reliable_channel(), physics_input_channel(), unreliable_channel()), (0, 1, 2));
}
