use fps_enhancer::display::{
    find_mode, interpret_commit_result, interpret_restore_result, interpret_test_result,
    ChangeReason, DisplayCall, DisplayError, DisplayMode, ModeChange, DISP_CHANGE_BADMODE,
    DISP_CHANGE_FAILED, DISP_CHANGE_RESTART, DISP_CHANGE_SUCCESSFUL,
};

fn mode(w: u32, h: u32, r: u32) -> DisplayMode {
    DisplayMode {
        width: w,
        height: h,
        refresh_rate: r,
        bits_per_pixel: None,
        monitor_name: String::new(),
    }
}

#[test]
fn failed_test_phase_never_commits() {
    // simulate a test-phase rejection and assert no commit call occurs
    let mut session = ModeChange::begin(mode(1920, 1080, 144), false);
    assert_eq!(session.next_call(), Some(DisplayCall::TestCall));
    session.on_result(DISP_CHANGE_BADMODE);
    assert_eq!(session.next_call(), None);
    assert_eq!(
        session.outcome(),
        Some(Err(DisplayError::ChangeFailed(ChangeReason::TestRejected)))
    );
}

#[test]
fn commit_call_comes_only_after_test_success() {
    let mut session = ModeChange::begin(mode(1920, 1080, 60), true);
    assert_eq!(session.next_call(), Some(DisplayCall::TestCall));
    session.on_result(DISP_CHANGE_SUCCESSFUL);
    assert_eq!(session.next_call(), Some(DisplayCall::CommitCall));
    session.on_result(DISP_CHANGE_SUCCESSFUL);
    assert_eq!(session.next_call(), None);
    assert_eq!(session.outcome(), Some(Ok(())));
}

#[test]
fn commit_failure_reasons_are_distinguished() {
    for (code, reason) in [
        (DISP_CHANGE_RESTART, ChangeReason::RestartRequired),
        (DISP_CHANGE_BADMODE, ChangeReason::BadMode),
        (DISP_CHANGE_FAILED, ChangeReason::DriverFailed),
        (7, ChangeReason::Unknown),
    ] {
        let mut session = ModeChange::begin(mode(800, 600, 60), false);
        session.on_result(DISP_CHANGE_SUCCESSFUL);
        session.on_result(code);
        assert_eq!(
            session.outcome(),
            Some(Err(DisplayError::ChangeFailed(reason)))
        );
    }
}

#[test]
fn applied_mode_round_trips_through_current_mode_echo() {
    // apply a mode with every OS call succeeding, then read the current mode
    // from a driver mocked to echo the last applied mode
    let requested = mode(2560, 1440, 165);
    let mut session = ModeChange::begin(requested, false);
    let mut last_applied: Option<(u32, u32, u32)> = None;
    while let Some(call) = session.next_call() {
        if let DisplayCall::CommitCall = call {
            last_applied = Some((
                session.mode.width,
                session.mode.height,
                session.mode.refresh_rate,
            ));
        }
        session.on_result(DISP_CHANGE_SUCCESSFUL);
    }
    assert_eq!(session.outcome(), Some(Ok(())));
    let echoed = mode(
        last_applied.unwrap().0,
        last_applied.unwrap().1,
        last_applied.unwrap().2,
    );
    assert_eq!(echoed.width, 2560);
    assert_eq!(echoed.height, 1440);
    assert_eq!(echoed.refresh_rate, 165);
}

#[test]
fn interpreters_map_result_codes_exactly() {
    assert_eq!(interpret_test_result(DISP_CHANGE_SUCCESSFUL), Ok(()));
    assert_eq!(
        interpret_test_result(DISP_CHANGE_FAILED),
        Err(DisplayError::ChangeFailed(ChangeReason::TestRejected))
    );
    assert_eq!(interpret_commit_result(DISP_CHANGE_SUCCESSFUL), Ok(()));
    assert_eq!(
        interpret_commit_result(DISP_CHANGE_RESTART),
        Err(DisplayError::ChangeFailed(ChangeReason::RestartRequired))
    );
    assert_eq!(interpret_restore_result(DISP_CHANGE_SUCCESSFUL), Ok(()));
    assert_eq!(
        interpret_restore_result(-3),
        Err(DisplayError::ChangeFailed(ChangeReason::Unknown))
    );
}

#[test]
fn find_mode_picks_first_exact_match() {
    let modes = vec![mode(3840, 2160, 60), mode(1920, 1080, 144), mode(1920, 1080, 60)];
    assert_eq!(find_mode(&modes, 1920, 1080, 144), Ok(1));
    assert_eq!(find_mode(&modes, 3840, 2160, 60), Ok(0));
}

#[test]
fn find_mode_reports_mode_not_found() {
    let modes = vec![mode(1920, 1080, 60)];
    assert_eq!(
        find_mode(&modes, 1280, 720, 60),
        Err(DisplayError::ModeNotFound)
    );
}

#[test]
fn default_mode_targets_primary() {
    let d = DisplayMode::default();
    assert!(d.targets_primary());
    assert_eq!(d.width, 0);
    assert_eq!(d.bits_per_pixel, None);
}
