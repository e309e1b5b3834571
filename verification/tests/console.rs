use rustyracer_engine::editor::console::{Console, LogLevel};
use rustyracer_engine::engine_core::error::EngineError;
use rustyracer_engine::networking::rollback::{RollbackSystem, MAX_HISTORY};

fn texts(console: &Console) -> Vec<(String, LogLevel)> {
    console.messages.iter().map(|m| (m.text.clone(), m.level)).collect()
}

#[test]
fn console_help_lists_the_commands() {
    let mut console = Console::default();
    console.input_buffer = "  HELP  ".to_string();
    assert_eq!(console.process_command(Some(true)), None);
    let shown = texts(&console);
    assert_eq!(shown.len(), 5);
    assert_eq!(shown[0], ("Available commands:".to_string(), LogLevel::Info));
    assert_eq!(shown[4], ("  clear - Clear console messages".to_string(), LogLevel::Info));
    assert_eq!(console.history.iter().cloned().collect::<Vec<_>>(), vec!["  HELP  ".to_string()]);
    assert!(console.input_buffer.is_empty());
}

#[test]
fn console_toggles_gravity_both_ways() {
    let mut console = Console::default();
    console.input_buffer = "toggle_gravity".to_string();
    assert_eq!(console.process_command(Some(true)), Some(false));
    console.input_buffer = "toggle_gravity".to_string();
    assert_eq!(console.process_command(Some(false)), Some(true));
    console.input_buffer = "toggle_gravity".to_string();
    assert_eq!(console.process_command(None), None);
    let shown = texts(&console);
    assert_eq!(shown[0], ("Gravity disabled".to_string(), LogLevel::Success));
    assert_eq!(shown[1], ("Gravity enabled".to_string(), LogLevel::Success));
    assert_eq!(shown[2], ("Physics world not found".to_string(), LogLevel::Error));
}

#[test]
fn console_reports_unknown_commands_and_counts() {
    let mut console = Console::default();
    console.input_buffer = "Spawn car".to_string();
    console.process_command(None);
    console.input_buffer = "list_entities".to_string();
    console.process_command(None);
    let shown = texts(&console);
    assert_eq!(shown[0], ("Unknown command: spawn".to_string(), LogLevel::Warning));
    assert_eq!(shown[1], ("Total entities: 0".to_string(), LogLevel::Info));
    assert_eq!(console.history.front().unwrap(), "list_entities");
}

#[test]
fn console_clear_keeps_only_its_reply() {
    let mut console = Console::default();
    console.log("one".to_string(), LogLevel::Info);
    console.log("two".to_string(), LogLevel::Error);
    console.input_buffer = "clear".to_string();
    console.process_command(None);
    assert_eq!(texts(&console), vec![("Console cleared".to_string(), LogLevel::Success)]);
}

#[test]
fn console_blank_line_changes_nothing() {
    let mut console = Console::default();
    console.input_buffer = "   ".to_string();
    assert_eq!(console.process_command(Some(true)), None);
    assert!(console.messages.is_empty());
    assert!(console.history.is_empty());
    assert_eq!(console.input_buffer, "   ");
}

#[test]
fn console_log_and_history_are_bounded() {
    let mut console = Console::default();
    console.max_messages = 3;
    console.max_history = 2;
    for i in 0..5 {
        console.log(format!("m{}", i), LogLevel::Info);
    }
    let shown: Vec<String> = texts(&console).into_iter().map(|(t, _)| t).collect();
    assert_eq!(shown, vec!["m2", "m3", "m4"]);
    for word in ["a", "b", "c"] {
        console.input_buffer = word.to_string();
        console.process_command(None);
    }
    assert_eq!(console.history.iter().cloned().collect::<Vec<_>>(), vec!["c".to_string(), "b".to_string()]);
    assert_eq!(console.messages.len(), 3);
    console.toggle();
    assert!(console.visible);
    console.toggle();
    assert!(!console.visible);
}

#[test]
fn rollback_restores_the_saved_frame() {
    let mut rollback: RollbackSystem<&str> = RollbackSystem::new();
    assert_eq!(rollback.current_frame(), 0);
    rollback.save_state("frame zero");
    rollback.save_state("frame one");
    rollback.advance_frame();
    rollback.save_state("frame three");
    assert_eq!(rollback.current_frame(), 4);
    let state = rollback.rollback(1).unwrap();
    assert_eq!(state.frame, 1);
    assert_eq!(state.input_frame, 1);
    assert_eq!(state.snapshot, "frame one");
    assert_eq!(rollback.rollback(3).unwrap().snapshot, "frame three");
    match rollback.rollback(2) {
        Err(EngineError::InvalidOperation(m)) => assert_eq!(m, "Target frame 2 not found in history"),
        _ => panic!("frame 2 was never saved"),
    }
}

#[test]
fn rollback_keeps_the_last_frames_only() {
    let mut rollback: RollbackSystem<u32> = RollbackSystem::new();
    for f in 0..20u32 {
        rollback.save_state(f * 10);
    }
    assert_eq!(MAX_HISTORY, 8);
    assert!(rollback.rollback(11).is_err());
    for f in 12..20u32 {
        assert_eq!(rollback.rollback(f).unwrap().snapshot, f * 10);
    }
    assert!(rollback.rollback(20).is_err());
}
