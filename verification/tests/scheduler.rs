use genie_home_core::scheduler::{
    SchedulerCatchUpMode, SchedulerCatchUpPolicy, SchedulerWindow, SchedulerWindowError,
    enumerate_hh_mm_window,
};

fn window(from: &str, to: &str) -> SchedulerWindow {
    SchedulerWindow { from_hh_mm: from.into(), to_hh_mm: to.into() }
}

#[test]
fn enumerates_same_day_window_exclusive_start_inclusive_end() {
    let ticks = enumerate_hh_mm_window(
        &SchedulerWindow { from_hh_mm: "22:58".into(), to_hh_mm: "23:00".into() },
        10,
    )
    .unwrap();

    assert_eq!(ticks, vec!["22:59", "23:00"]);
}

#[test]
fn enumerates_midnight_wrap() {
    let ticks = enumerate_hh_mm_window(
        &SchedulerWindow { from_hh_mm: "23:58".into(), to_hh_mm: "00:01".into() },
        10,
    )
    .unwrap();

    assert_eq!(ticks, vec!["23:59", "00:00", "00:01"]);
}

#[test]
fn respects_tick_limit() {
    let ticks = enumerate_hh_mm_window(
        &SchedulerWindow { from_hh_mm: "10:00".into(), to_hh_mm: "11:00".into() },
        2,
    )
    .unwrap();

    assert_eq!(ticks, vec!["10:01", "10:02"]);
}

#[test]
fn zero_tick_limit_checks_nothing() {
    let ticks = enumerate_hh_mm_window(&window("bad", "worse"), 0).unwrap();
    assert!(ticks.is_empty());
}

#[test]
fn same_start_and_end_covers_a_whole_day() {
    let ticks = enumerate_hh_mm_window(&window("05:00", "05:00"), 5000).unwrap();
    assert_eq!(ticks.len(), 1440);
    assert_eq!(ticks[0], "05:01");
    assert_eq!(ticks[1439], "05:00");
}

#[test]
fn invalid_bounds_are_reported_start_first() {
    for bad in ["7:00", "24:00", "12:60", "12-00", "aa:bb", "", "12:000"] {
        let err = enumerate_hh_mm_window(&window(bad, "25:00"), 3).unwrap_err();
        let SchedulerWindowError::InvalidTime(v) = &err;
        assert_eq!(v, bad);
        assert_eq!(err.message(), format!("invalid HH:MM value: {}", bad));
    }
    let err = enumerate_hh_mm_window(&window("08:00", "8:5"), 3).unwrap_err();
    let SchedulerWindowError::InvalidTime(v) = err;
    assert_eq!(v, "8:5");
}

#[test]
fn leading_plus_is_accepted_like_integer_parsing() {
    let ticks = enumerate_hh_mm_window(&window("+9:30", "09:32"), 10).unwrap();
    assert_eq!(ticks, vec!["09:31", "09:32"]);
}

#[test]
fn default_catch_up_policy_runs_due_ticks() {
    let policy = SchedulerCatchUpPolicy::default();
    assert_eq!(policy.mode, SchedulerCatchUpMode::RunDueTicks);
    assert_eq!(policy.max_ticks, 120);
}
