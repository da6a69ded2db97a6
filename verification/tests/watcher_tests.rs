use fps_enhancer::display::DisplayMode;
use fps_enhancer::strategy::{display_action_for_edge, DisplayCommand};
use fps_enhancer::watcher::{Edge, ProcessWatcher};

fn test_mode() -> DisplayMode {
    DisplayMode {
        width: 1920,
        height: 1080,
        refresh_rate: 144,
        bits_per_pixel: None,
        monitor_name: String::new(),
    }
}

fn test_watcher() -> ProcessWatcher {
    ProcessWatcher::new(String::from("C:\\Games\\game.exe"), test_mode())
}

#[test]
fn new_watcher_is_idle_and_not_running() {
    let w = test_watcher();
    assert!(!w.is_watching());
    assert!(!w.is_running());
    assert_eq!(w.process_path, "C:\\Games\\game.exe");
}

#[test]
fn toggle_state_follows_parity_of_toggle_count() {
    let mut w = test_watcher();
    let mut expected = false;
    for _ in 0..7 {
        let now = w.toggle();
        expected = !expected;
        assert_eq!(now, expected);
        assert_eq!(w.is_watching(), expected);
    }
}

#[test]
fn double_start_spawns_only_one_task() {
    let mut w = test_watcher();
    assert!(w.start());
    assert!(!w.start());
    assert!(w.is_watching());
    // one live task: stopping once empties the slot, a second stop is a no-op
    assert!(w.stop());
    assert!(!w.stop());
    assert!(!w.is_watching());
}

#[test]
fn stop_on_idle_watcher_is_a_soft_no_op() {
    let mut w = test_watcher();
    assert!(!w.stop());
    assert!(!w.is_watching());
}

#[test]
fn edge_detection_fires_exactly_on_transitions() {
    // scripted process table: [absent, absent, present, present, absent]
    let samples = [false, false, true, true, false];
    let mut w = test_watcher();
    w.start();
    let mut display_calls = 0;
    let mut edges = Vec::new();
    for s in samples {
        let edge = w.observe(s);
        if !matches!(edge, Edge::Steady) {
            display_calls += 1;
        }
        edges.push(edge);
    }
    // fires exactly twice: on the 2nd->3rd and the 4th->5th transition
    assert_eq!(display_calls, 2);
    assert_eq!(
        edges,
        vec![Edge::Steady, Edge::Steady, Edge::Rise, Edge::Steady, Edge::Fall]
    );
}

#[test]
fn restore_fires_once_per_false_edge_however_long_absent() {
    let samples = [true, false, false, false, false, true, false, false];
    let mut w = test_watcher();
    w.start();
    let mode = test_mode();
    let mut restores = 0;
    for s in samples {
        let edge = w.observe(s);
        if let Some(DisplayCommand::RestoreDefaults) = display_action_for_edge(edge, &mode) {
            restores += 1;
        }
    }
    // two falling edges, five absent ticks in all
    assert_eq!(restores, 2);
}

#[test]
fn rising_edge_applies_mode_temporarily_on_primary() {
    let mut w = test_watcher();
    w.start();
    let mode = test_mode();
    let edge = w.observe(true);
    match display_action_for_edge(edge, &mode) {
        Some(DisplayCommand::ChangeMode { mode: m, permanent }) => {
            assert_eq!(m.width, 1920);
            assert_eq!(m.height, 1080);
            assert_eq!(m.refresh_rate, 144);
            assert!(!permanent);
        }
        other => panic!("expected a primary mode change, got {:?}", other),
    }
}

#[test]
fn rising_edge_targets_named_monitor_when_bound() {
    let mut w = test_watcher();
    w.select_monitor(String::from("\\\\.\\DISPLAY2"));
    w.start();
    let edge = w.observe(true);
    match display_action_for_edge(edge, &w.display_mode) {
        Some(DisplayCommand::ChangeModeForMonitor { mode: m, permanent }) => {
            assert_eq!(m.monitor_name, "\\\\.\\DISPLAY2");
            assert!(!permanent);
        }
        other => panic!("expected a per-monitor change, got {:?}", other),
    }
}

#[test]
fn steady_ticks_produce_no_display_command() {
    let mut w = test_watcher();
    w.start();
    let mode = test_mode();
    for s in [false, false, false] {
        let edge = w.observe(s);
        assert!(display_action_for_edge(edge, &mode).is_none());
    }
}

#[test]
fn is_running_reflects_last_observed_state_after_stop() {
    let mut w = test_watcher();
    w.start();
    w.observe(true);
    assert!(w.is_running());
    w.stop();
    // a hard abort performs no final restore and keeps the flag
    assert!(w.is_running());
}
