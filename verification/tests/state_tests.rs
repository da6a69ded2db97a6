use fps_enhancer::app_config::{AppConfig, DevelopmentConfig, ValorantConfig, WatcherConfig};
use fps_enhancer::monitors::MonitorMap;
use fps_enhancer::state::{
    apply_config_update, create_preset_watcher, get_gaming_status, get_monitors_map,
    get_watching_status, select_monitor, toggle_watching, update_monitors, AppState,
};

fn watcher_config(path: Option<&str>) -> WatcherConfig {
    WatcherConfig {
        game_path: path.map(String::from),
        width: 1920,
        height: 1080,
        fps: 144,
    }
}

#[test]
fn fresh_state_is_idle_with_no_watcher() {
    let s = AppState::new();
    assert!(!get_watching_status(&s));
    assert!(!get_gaming_status(&s));
    assert!(s.watcher.is_none());
}

#[test]
fn toggle_without_game_path_is_a_user_error() {
    let mut s = AppState::new();
    let err = toggle_watching(&mut s, &watcher_config(None)).unwrap_err();
    assert_eq!(err, "game path is not configured");
    assert!(s.watcher.is_none());
}

#[test]
fn first_toggle_creates_and_starts_the_watcher() {
    let mut s = AppState::new();
    let cfg = watcher_config(Some("C:\\game.exe"));
    assert_eq!(toggle_watching(&mut s, &cfg), Ok(true));
    assert!(get_watching_status(&s));
    let w = s.watcher.as_ref().unwrap();
    assert_eq!(w.process_path, "C:\\game.exe");
    assert_eq!(w.display_mode.width, 1920);
    assert_eq!(w.display_mode.height, 1080);
    assert_eq!(w.display_mode.refresh_rate, 144);
    assert_eq!(w.display_mode.monitor_name, "");
}

#[test]
fn toggling_twice_returns_to_idle() {
    let mut s = AppState::new();
    let cfg = watcher_config(Some("C:\\game.exe"));
    assert_eq!(toggle_watching(&mut s, &cfg), Ok(true));
    assert_eq!(toggle_watching(&mut s, &cfg), Ok(false));
    assert!(!get_watching_status(&s));
    // the watcher itself stays in the slot, idle
    assert!(s.watcher.is_some());
    assert_eq!(toggle_watching(&mut s, &cfg), Ok(true));
    assert!(get_watching_status(&s));
}

#[test]
fn select_monitor_binds_the_mode_to_a_named_output() {
    let mut s = AppState::new();
    let cfg = watcher_config(Some("C:\\game.exe"));
    assert!(select_monitor(&mut s, String::from("\\\\.\\DISPLAY2"), &cfg).is_ok());
    let w = s.watcher.as_ref().unwrap();
    assert_eq!(w.display_mode.monitor_name, "\\\\.\\DISPLAY2");
    // created for selection only: not started
    assert!(!get_watching_status(&s));
}

#[test]
fn select_monitor_without_config_path_fails_when_no_watcher_exists() {
    let mut s = AppState::new();
    let err = select_monitor(&mut s, String::from("\\\\.\\DISPLAY1"), &watcher_config(None))
        .unwrap_err();
    assert_eq!(err, "game path is not configured");
}

#[test]
fn saved_config_replaces_mode_and_restarts_live_watcher() {
    let mut s = AppState::new();
    let cfg = watcher_config(Some("C:\\game.exe"));
    toggle_watching(&mut s, &cfg).unwrap();
    let restarted = apply_config_update(&mut s, 1280, 960, 240);
    assert!(restarted);
    let w = s.watcher.as_ref().unwrap();
    assert_eq!(w.display_mode.width, 1280);
    assert_eq!(w.display_mode.height, 960);
    assert_eq!(w.display_mode.refresh_rate, 240);
    assert!(get_watching_status(&s));
}

#[test]
fn saved_config_leaves_idle_watcher_idle() {
    let mut s = AppState::new();
    let cfg = watcher_config(Some("C:\\game.exe"));
    select_monitor(&mut s, String::from("\\\\.\\DISPLAY2"), &cfg).unwrap();
    let restarted = apply_config_update(&mut s, 800, 600, 60);
    assert!(!restarted);
    assert!(!get_watching_status(&s));
    // the update also puts the mode back on the primary output
    assert_eq!(s.watcher.as_ref().unwrap().display_mode.monitor_name, "");
}

#[test]
fn monitors_cache_holds_the_last_enumeration() {
    let mut s = AppState::new();
    let mut m = MonitorMap::new();
    m.insert(String::from("\\\\.\\DISPLAY1"), String::from("GPU"));
    update_monitors(&mut s, m);
    let cached = get_monitors_map(&s);
    assert_eq!(cached.len(), 1);
    assert_eq!(cached.get(&String::from("\\\\.\\DISPLAY1")).unwrap(), "GPU");
}

#[test]
fn preset_watcher_comes_from_the_launcher_path() {
    let mut s = AppState::new();
    let mut cfg = AppConfig {
        watcher: watcher_config(None),
        valorant: ValorantConfig {
            launcher_path: Some(String::from("C:\\Riot\\launcher.exe")),
            game_path: None,
        },
        development: DevelopmentConfig { debug: false },
    };
    match create_preset_watcher(&mut s, &mut cfg) {
        Ok(displaced) => assert!(displaced.is_none()),
        Err(e) => panic!("expected the preset watcher, got {}", e),
    }
    let w = s.watcher.as_ref().unwrap();
    assert_eq!(w.process_path, "C:\\Riot\\launcher.exe");
    assert!(!get_watching_status(&s));
    assert_eq!(cfg.watcher.game_path.as_deref(), Some("C:\\Riot\\launcher.exe"));
}

#[test]
fn preset_replacement_stops_a_watching_predecessor() {
    let mut s = AppState::new();
    let old_cfg = watcher_config(Some("C:\\old.exe"));
    toggle_watching(&mut s, &old_cfg).unwrap();
    assert!(get_watching_status(&s));
    let mut cfg = AppConfig {
        watcher: watcher_config(None),
        valorant: ValorantConfig {
            launcher_path: Some(String::from("C:\\Riot\\launcher.exe")),
            game_path: None,
        },
        development: DevelopmentConfig { debug: false },
    };
    let displaced = match create_preset_watcher(&mut s, &mut cfg) {
        Ok(d) => d.expect("the displaced watcher comes back"),
        Err(e) => panic!("expected the preset watcher, got {}", e),
    };
    // the old watcher was stopped before it left the slot
    assert!(!displaced.is_watching());
    assert_eq!(displaced.process_path, "C:\\old.exe");
    // the slot now holds the new idle watcher
    assert!(!get_watching_status(&s));
    assert_eq!(
        s.watcher.as_ref().unwrap().process_path,
        "C:\\Riot\\launcher.exe"
    );
}

#[test]
fn preset_watcher_needs_a_launcher_path() {
    let mut s = AppState::new();
    let mut cfg = AppConfig {
        watcher: watcher_config(None),
        valorant: ValorantConfig {
            launcher_path: None,
            game_path: None,
        },
        development: DevelopmentConfig { debug: false },
    };
    let err = match create_preset_watcher(&mut s, &mut cfg) {
        Err(e) => e,
        Ok(_) => panic!("expected a missing-launcher error"),
    };
    assert_eq!(err, "launcher path is not configured");
    assert!(s.watcher.is_none());
}
