use stopwatch::Color;
use stopwatch::Message;
use stopwatch::Session;
use stopwatch::State;
use stopwatch::WarnSettings;
use stopwatch::format_elapsed;
use stopwatch::format_text;
use stopwatch::highlight_col;
use stopwatch::highlight_color;
use stopwatch::serialize_sessions;

#[test]
fn format_minutes_and_seconds() {
    assert_eq!(format_elapsed(125, false), "02:05");
}

#[test]
fn format_rolls_into_hours() {
    assert_eq!(format_elapsed(3725, false), "01:02:05");
}

#[test]
fn format_forced_hours() {
    assert_eq!(format_elapsed(5, true), "00:00:05");
}

#[test]
fn format_zero() {
    assert_eq!(format_elapsed(0, false), "00:00");
    assert_eq!(format_elapsed(0, true), "00:00:00");
}

#[test]
fn format_boundary_of_an_hour() {
    assert_eq!(format_elapsed(3599, false), "59:59");
    assert_eq!(format_elapsed(3600, false), "01:00:00");
}

#[test]
fn format_hour_field_grows_past_two_digits() {
    assert_eq!(format_elapsed(100 * 3600 + 125, false), "100:02:05");
}

#[test]
fn format_text_matches_unforced_format() {
    assert_eq!(format_text(125), "02:05");
    assert_eq!(format_text(3725), "01:02:05");
}

#[test]
fn formatted_shape_below_and_above_an_hour() {
    for &seconds in &[0u64, 59, 60, 125, 3599] {
        let s = format_elapsed(seconds, false);
        assert_eq!(s.len(), 5);
        assert_eq!(&s[2..3], ":");
    }
    for &seconds in &[3600u64, 3725, 86400] {
        let s = format_elapsed(seconds, false);
        assert_eq!(s.len(), 8);
        assert_eq!(&s[2..3], ":");
        assert_eq!(&s[5..6], ":");
    }
}

#[test]
fn formatted_string_parses_back() {
    for &seconds in &[0u64, 5, 125, 3599, 3600, 3725, 7325, 359999] {
        let s = format_elapsed(seconds, false);
        let fields: Vec<u64> = s.split(':').map(|f| f.parse().unwrap()).collect();
        let recovered = fields.iter().fold(0u64, |acc, &f| acc * 60 + f);
        assert_eq!(recovered, seconds);
    }
}

#[test]
fn disabled_thresholds_are_neutral() {
    let settings = WarnSettings { warn_after: 0, danger_after: 0 };
    for &seconds in &[0u64, 1, 2700, 3600, u64::MAX] {
        assert_eq!(highlight_color(seconds, &settings), Color::Neutral);
    }
}

#[test]
fn color_bands_at_exact_boundaries() {
    let settings = WarnSettings { warn_after: 2700, danger_after: 3600 };
    assert_eq!(highlight_color(2699, &settings), Color::Green);
    assert_eq!(highlight_color(2700, &settings), Color::Green);
    assert_eq!(highlight_color(2701, &settings), Color::Yellow);
    assert_eq!(highlight_color(3600, &settings), Color::Yellow);
    assert_eq!(highlight_color(3601, &settings), Color::Red);
}

#[test]
fn color_bands_small_thresholds() {
    let settings = WarnSettings { warn_after: 1, danger_after: 2 };
    assert_eq!(highlight_color(0, &settings), Color::Green);
    assert_eq!(highlight_color(1, &settings), Color::Green);
    assert_eq!(highlight_color(2, &settings), Color::Yellow);
    assert_eq!(highlight_color(3, &settings), Color::Red);
}

#[test]
fn paused_color_is_neutral() {
    let settings = WarnSettings { warn_after: 10, danger_after: 20 };
    assert_eq!(highlight_col(5000, true, &settings), Color::Neutral);
    assert_eq!(highlight_col(5000, false, &settings), Color::Red);
}

#[test]
fn thresholds_from_minutes() {
    let settings = WarnSettings::from_minutes(45, 60);
    assert_eq!(settings.warn_after, 2700);
    assert_eq!(settings.danger_after, 3600);
}

#[test]
fn new_state_is_paused_by_default() {
    let state = State::new(false, 100);
    assert!(state.paused);
    assert_eq!(state.anchor, 100);
    assert!(state.sessions.is_empty());
}

#[test]
fn new_state_can_start_unpaused() {
    let state = State::new(true, 100);
    assert!(!state.paused);
}

#[test]
fn toggle_closes_interval_and_flips_mode() {
    let mut state = State::new(true, 100);
    state.toggle_pause(160);
    assert!(state.paused);
    assert_eq!(state.sessions.len(), 1);
    assert_eq!(
        state.sessions[0],
        Session { is_pause: false, start: 100, end: 160 }
    );
    // Entering a pause keeps the anchor; only leaving one restarts it.
    assert_eq!(state.anchor, 100);
    state.toggle_pause(200);
    assert!(!state.paused);
    assert_eq!(state.anchor, 200);
    assert_eq!(
        state.sessions[1],
        Session { is_pause: true, start: 100, end: 200 }
    );
}

#[test]
fn double_toggle_appends_two_sessions() {
    let mut state = State::new(false, 100);
    assert!(state.paused);
    state.toggle_pause(150);
    let anchor_after_one = state.anchor;
    state.toggle_pause(220);
    assert_eq!(state.sessions.len(), 2);
    assert_eq!(state.anchor, anchor_after_one);
    assert_eq!(state.anchor, 150);
    assert!(state.paused);
}

#[test]
fn three_toggles_from_running_close_one_pause() {
    let mut state = State::new(true, 100);
    state.toggle_pause(150);
    state.toggle_pause(200);
    state.toggle_pause(260);
    assert_eq!(state.pause_count(), 1);
    assert_eq!(state.sessions.len(), 3);
}

#[test]
fn three_toggles_from_paused_close_two_pauses() {
    let mut state = State::new(false, 100);
    state.toggle_pause(150);
    state.toggle_pause(200);
    state.toggle_pause(260);
    assert_eq!(state.pause_count(), 2);
}

#[test]
fn pause_count_of_empty_log_is_zero() {
    let state = State::new(false, 0);
    assert_eq!(state.pause_count(), 0);
}

#[test]
fn update_dispatches_toggle_and_ignores_refresh() {
    let mut state = State::new(true, 100);
    state.update(Message::Refresh, 130);
    assert!(!state.paused);
    assert_eq!(state.anchor, 100);
    assert!(state.sessions.is_empty());
    state.update(Message::Toggle, 160);
    assert!(state.paused);
    assert_eq!(state.sessions.len(), 1);
}

#[test]
fn elapsed_is_wall_clock_difference() {
    let state = State::new(true, 100);
    assert_eq!(state.elapsed_seconds(160), 60);
    assert_eq!(state.elapsed_seconds(100), 0);
}

#[test]
fn elapsed_clamps_clock_underflow_to_zero() {
    let state = State::new(true, 100);
    assert_eq!(state.elapsed_seconds(99), 0);
}

#[test]
fn toggle_clamps_interval_end_on_clock_underflow() {
    let mut state = State::new(true, 100);
    state.toggle_pause(99);
    assert_eq!(
        state.sessions[0],
        Session { is_pause: false, start: 100, end: 100 }
    );
}

#[test]
fn tick_while_running() {
    let settings = WarnSettings { warn_after: 50, danger_after: 100 };
    let state = State::new(true, 100);
    let (text, color, count) = state.tick(175, &settings);
    assert_eq!(text, "01:15");
    assert_eq!(color, Color::Yellow);
    assert_eq!(count, 0);
}

#[test]
fn tick_while_paused_suppresses_the_clock() {
    let settings = WarnSettings { warn_after: 50, danger_after: 100 };
    let mut state = State::new(true, 100);
    state.toggle_pause(175);
    let (text, color, count) = state.tick(5000, &settings);
    assert_eq!(text, "paused");
    assert_eq!(color, Color::Neutral);
    assert_eq!(count, 0);
}

#[test]
fn refresh_cadence_slows_while_paused() {
    assert_eq!(stopwatch::tick_interval_ms(true), 1000);
    assert_eq!(stopwatch::tick_interval_ms(false), 500);
}

#[test]
fn serialize_empty_log() {
    assert_eq!(serialize_sessions(&Vec::new()), "");
}

#[test]
fn serialize_records_in_order() {
    let sessions = vec![
        Session { is_pause: false, start: 0, end: 3725 },
        Session { is_pause: true, start: 3725, end: 3730 },
    ];
    assert_eq!(
        serialize_sessions(&sessions),
        "01:02:05 active\n00:00:05 pause\n"
    );
}
