use std::time::{Duration, Instant};
use button_hub::event::ActionType;
use button_hub::timer::{
    command_for_press, execute, format_elapsed, key_outcome, second_due, switcher_mode, tick,
    timer_card_colors,
    SetupError, TimerCommand, TimerState, TimerSwitcherApp,
};
use button_hub::keys::{Key, KeyOutcome};
use button_hub::tracker::Color;

#[test]
fn test_format_elapsed() {
    assert_eq!(format_elapsed(0), "00:00:00");
    assert_eq!(format_elapsed(5), "00:00:05");
    assert_eq!(format_elapsed(65), "00:01:05");
    assert_eq!(format_elapsed(3661), "01:01:01");
}

#[test]
fn test_new_manager() {
    let state = TimerState::new(vec!["A".to_string(), "B".to_string()]);
    assert_eq!(state.count(), 2);
    assert_eq!(state.active_index, 0);
    assert!(!state.paused);
}

#[test]
fn test_cycle() {
    let mut state = TimerState::new(vec!["A".to_string(), "B".to_string(), "C".to_string()]);
    assert_eq!(state.active_index, 0);
    state.cycle();
    assert_eq!(state.active_index, 1);
    state.cycle();
    assert_eq!(state.active_index, 2);
    state.cycle();
    assert_eq!(state.active_index, 0);
}

#[test]
fn test_tick_only_active() {
    let mut state = TimerState::new(vec!["A".to_string(), "B".to_string()]);
    state.tick_test();
    state.tick_test();
    let snap = state.snapshot();
    assert_eq!(snap.elapsed[0], 2);
    assert_eq!(snap.elapsed[1], 0);
}

#[test]
fn test_tick_skipped_when_paused() {
    let mut state = TimerState::new(vec!["A".to_string()]);
    state.tick_test();
    state.tick_test();
    state.toggle_pause();
    state.tick_test();
    state.tick_test();
    state.toggle_pause();
    state.tick_test();
    let snap = state.snapshot();
    assert_eq!(snap.elapsed[0], 3);
}

#[test]
fn timer_test_snapshot() {
    let mut state = TimerState::new(vec!["A".to_string(), "B".to_string()]);
    state.tick_test();
    state.cycle();
    state.tick_test();

    let snap = state.snapshot();
    assert_eq!(snap.names, vec!["A", "B"]);
    assert_eq!(snap.elapsed, vec![1, 1]);
    assert_eq!(snap.active_index, 1);
    assert!(!snap.paused);
}

// --- Further cases ---

#[test]
fn format_elapsed_long_hours_and_edges() {
    assert_eq!(format_elapsed(59), "00:00:59");
    assert_eq!(format_elapsed(60), "00:01:00");
    assert_eq!(format_elapsed(3599), "00:59:59");
    assert_eq!(format_elapsed(359_999), "99:59:59");
    assert_eq!(format_elapsed(360_000), "100:00:00");
    assert_eq!(format_elapsed(u64::MAX), format!("{:02}:{:02}:{:02}", u64::MAX / 3600, (u64::MAX % 3600) / 60, u64::MAX % 60));
}

#[test]
fn switch_to_and_reset() {
    let mut state = TimerState::new(vec!["A".to_string(), "B".to_string(), "C".to_string()]);
    state.switch_to(2);
    assert_eq!(state.active_index, 2);
    state.switch_to(7);
    assert_eq!(state.active_index, 2);
    state.tick_test();
    state.tick_test();
    state.switch_to(0);
    state.tick_test();
    state.reset();
    let snap = state.snapshot();
    assert_eq!(snap.elapsed, vec![0, 0, 2]);
}

#[test]
fn first_real_tick_counts_and_a_quick_second_does_not() {
    let mut state = TimerState::new(vec!["A".to_string(), "B".to_string()]);
    state.tick();
    assert_eq!(state.timers[0].elapsed, 1);
    state.tick();
    assert_eq!(state.timers[0].elapsed, 1);
    assert!(state.last_tick.is_some());
}

#[test]
fn paused_tick_does_nothing() {
    let mut state = TimerState::new(vec!["A".to_string()]);
    state.toggle_pause();
    tick(&mut state);
    assert_eq!(state.timers[0].elapsed, 0);
    assert!(state.last_tick.is_none());
}

#[test]
fn empty_timers_ignore_everything() {
    let mut state = TimerState::default();
    state.cycle();
    state.reset();
    state.tick_test();
    state.tick();
    assert_eq!(state.count(), 0);
    assert_eq!(state.active_index, 0);
    assert_eq!(state.snapshot().count(), 0);
}

#[test]
fn timer_execute_runs_each_command() {
    let mut state = TimerState::new(vec!["A".to_string(), "B".to_string()]);
    execute(&mut state, TimerCommand::Cycle);
    assert_eq!(state.active_index, 1);
    execute(&mut state, TimerCommand::SwitchTo(0));
    assert_eq!(state.active_index, 0);
    execute(&mut state, TimerCommand::TogglePause);
    assert!(state.paused);
    state.toggle_pause();
    state.tick_test();
    execute(&mut state, TimerCommand::Reset);
    assert_eq!(state.timers[0].elapsed, 0);
}

#[test]
fn cycling_n_times_returns_to_start() {
    let names: Vec<String> = (0..5).map(|i| format!("T{}", i)).collect();
    let mut state = TimerState::new(names);
    state.switch_to(3);
    for _ in 0..5 {
        state.cycle();
    }
    assert_eq!(state.active_index, 3);
}

#[test]
fn presses_in_direct_map_and_cycle_modes() {
    assert_eq!(command_for_press(&ActionType::Single, true, 1, 0), Some(TimerCommand::SwitchTo(1)));
    assert_eq!(command_for_press(&ActionType::Single, true, 1, 1), Some(TimerCommand::Cycle));
    assert_eq!(command_for_press(&ActionType::Single, false, 1, 0), Some(TimerCommand::Cycle));
    assert_eq!(command_for_press(&ActionType::Double, true, 1, 0), Some(TimerCommand::TogglePause));
    assert_eq!(command_for_press(&ActionType::LongPress, false, 0, 0), None);
}

#[test]
fn setup_checks() {
    assert_eq!(switcher_mode(0, 3), Err(SetupError::NoButtons));
    assert_eq!(switcher_mode(1, 1), Err(SetupError::TooFewTimers(1)));
    assert_eq!(switcher_mode(3, 3), Ok(true));
    assert_eq!(switcher_mode(1, 3), Ok(false));
}

#[test]
fn app_keeps_debug_flag() {
    assert!(TimerSwitcherApp::new(true).debug);
    assert!(!TimerSwitcherApp::new(false).debug);
}

#[test]
fn timer_keys() {
    assert_eq!(key_outcome(Key::Space), KeyOutcome::Run(TimerCommand::Cycle));
    assert_eq!(key_outcome(Key::Enter), KeyOutcome::Run(TimerCommand::Reset));
    assert_eq!(key_outcome(Key::P), KeyOutcome::Run(TimerCommand::TogglePause));
    assert_eq!(key_outcome(Key::Escape), KeyOutcome::Quit);
    assert_eq!(key_outcome(Key::Digit(1)), KeyOutcome::Ignore);
    assert_eq!(key_outcome(Key::R), KeyOutcome::Ignore);
}

#[test]
fn timer_card_colors_follow_activity_and_pause() {
    let (fill, border, name, time) = timer_card_colors(true, false);
    assert_eq!(fill, Color::from_rgb(26, 58, 92));
    assert_eq!(border, Color::from_rgb(0, 180, 216));
    assert_eq!(name, Color::from_rgb(144, 224, 239));
    assert_eq!(time, Color::white());
    assert_eq!(timer_card_colors(true, true).3, Color::from_rgb(255, 193, 7));
    let (fill, border, name, time) = timer_card_colors(false, true);
    assert_eq!(fill, Color::from_rgb(40, 40, 50));
    assert_eq!(border, Color::from_rgb(85, 85, 85));
    assert_eq!(name, Color::from_rgb(170, 170, 170));
    assert_eq!(time, Color::white());
}

#[test]
fn a_second_is_due_first_and_then_once_per_whole_second() {
    assert!(second_due(None));
    assert!(!second_due(Some(0)));
    assert!(second_due(Some(1)));
    assert!(second_due(Some(5)));
}

#[test]
fn tick_at_counts_once_per_whole_second() {
    let mut state = TimerState::new(vec!["A".to_string(), "B".to_string()]);
    let t0 = Instant::now();
    state.tick_at(t0);
    assert_eq!(state.timers[0].elapsed, 1);
    assert_eq!(state.last_tick, Some(t0));
    state.tick_at(t0 + Duration::from_millis(999));
    assert_eq!(state.timers[0].elapsed, 1);
    assert_eq!(state.last_tick, Some(t0));
    state.tick_at(t0 + Duration::from_secs(1));
    assert_eq!(state.timers[0].elapsed, 2);
    assert_eq!(state.last_tick, Some(t0 + Duration::from_secs(1)));
    // An earlier reading counts as no time passed.
    state.tick_at(t0);
    assert_eq!(state.timers[0].elapsed, 2);
    state.toggle_pause();
    state.tick_at(t0 + Duration::from_secs(10));
    assert_eq!(state.timers[0].elapsed, 2);
}
