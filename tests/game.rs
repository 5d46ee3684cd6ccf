use breakout::mode::{
    check_menu_condition, check_preparation_end_condition, check_restart_condition, check_summary_condition,
    check_toggle_pause_condition, continue_restart_game, next_transition, start_up, AppState, InGameState,
    ModeInput, PendingEvents, Session, Transition, BRICK_ROW_INTERVAL_MS,
};
use breakout::settings::{test_settings, Settings, SettingsInput, Steps, DEFAULT_POINTS, MAX_POINTS, MIN_POINTS};

fn events(menu: u32, restart: u32, toggle: u32, last: u32) -> PendingEvents {
    PendingEvents { menu_requested: menu, restart_requested: restart, toggle_pause_requested: toggle, last_ball_destroyed: last }
}

fn quiet() -> ModeInput {
    ModeInput { other_key_just_pressed: false, mouse_just_pressed: false, pause_just_pressed: false }
}

fn no_keys() -> SettingsInput {
    SettingsInput {
        lower: false,
        raise: false,
        paddle_size: false,
        paddle_speed: false,
        ball_size: false,
        ball_speed: false,
        brick_ghost: false,
    }
}

#[test]
fn menu_wins_over_restart_in_one_tick() {
    let mut e = events(1, 3, 1, 1);
    let t = next_transition(InGameState::Play, &mut e, &quiet());
    assert_eq!(t, Transition::ToMenu);
    assert_eq!(e, events(0, 0, 0, 0));
    let mut s = Session::new();
    s.score = 12;
    s.apply(t);
    assert_eq!(s.app, AppState::Menu);
    assert_eq!(s.mode, InGameState::Idle);
    assert_eq!(s.score, 0);
}

#[test]
fn restart_resets_and_prepares() {
    let mut s = Session::new();
    s.mode = InGameState::Summary;
    s.score = 40;
    s.settings.ball_speed.change_points(1);
    let mut e = events(0, 2, 0, 0);
    let t = next_transition(s.mode, &mut e, &quiet());
    assert_eq!(t, Transition::Restart);
    s.apply(t);
    assert_eq!(s, Session::new());
    assert_eq!(s.mode, InGameState::Preparation);
    assert_eq!(s.app, AppState::InGame);
}

#[test]
fn pause_toggles_between_play_and_pause() {
    let mut e = events(0, 0, 0, 0);
    let key = ModeInput { pause_just_pressed: true, ..quiet() };
    assert_eq!(next_transition(InGameState::Play, &mut e, &key), Transition::ToMode(InGameState::Pause));
    let mut e = events(0, 0, 2, 0);
    assert_eq!(next_transition(InGameState::Pause, &mut e, &quiet()), Transition::ToMode(InGameState::Play));
    assert_eq!(e, events(0, 0, 0, 0));
    let mut e = events(0, 0, 1, 0);
    assert_eq!(next_transition(InGameState::Summary, &mut e, &quiet()), Transition::Stay);
}

#[test]
fn last_ball_leads_to_summary() {
    let mut e = events(0, 0, 0, 1);
    assert_eq!(next_transition(InGameState::Play, &mut e, &quiet()), Transition::ToMode(InGameState::Summary));
    assert_eq!(e, events(0, 0, 0, 0));
    // a pause asked for in the same tick does not hide the lost game
    let mut e = events(0, 0, 1, 1);
    assert_eq!(next_transition(InGameState::Play, &mut e, &quiet()), Transition::ToMode(InGameState::Summary));
    let mut e = events(0, 0, 0, 1);
    let key = ModeInput { pause_just_pressed: true, ..quiet() };
    assert_eq!(next_transition(InGameState::Play, &mut e, &key), Transition::ToMode(InGameState::Summary));
}

#[test]
fn preparation_ends_on_other_key_or_mouse() {
    assert!(!check_preparation_end_condition(false, false));
    assert!(check_preparation_end_condition(false, true));
    assert!(check_preparation_end_condition(true, false));
    assert!(check_preparation_end_condition(true, true));
    let mut e = events(0, 0, 0, 0);
    let mouse = ModeInput { mouse_just_pressed: true, ..quiet() };
    assert_eq!(next_transition(InGameState::Preparation, &mut e, &mouse), Transition::ToMode(InGameState::Play));
    assert_eq!(next_transition(InGameState::Preparation, &mut e, &quiet()), Transition::Stay);
    let input = ModeInput { other_key_just_pressed: true, ..quiet() };
    assert_eq!(next_transition(InGameState::Preparation, &mut e, &input), Transition::ToMode(InGameState::Play));
    assert_eq!(next_transition(InGameState::Pause, &mut e, &input), Transition::Stay);
}

#[test]
fn single_checks_consume_their_events() {
    let mut n: u32 = 3;
    assert_eq!(check_menu_condition(&mut n), Some(AppState::Menu));
    assert_eq!(n, 0);
    assert_eq!(check_menu_condition(&mut n), None);
    let mut n: u32 = 1;
    assert_eq!(check_restart_condition(&mut n), Some(AppState::RestartInGame));
    assert_eq!(check_restart_condition(&mut n), None);
    let mut n: u32 = 1;
    assert_eq!(check_summary_condition(&mut n, InGameState::Play), Some(InGameState::Summary));
    assert_eq!(n, 0);
    let mut n: u32 = 0;
    assert_eq!(check_toggle_pause_condition(&mut n, true, InGameState::Pause), Some(InGameState::Play));
    assert_eq!(check_toggle_pause_condition(&mut n, false, InGameState::Play), None);
    assert_eq!(start_up(), InGameState::Preparation);
    assert_eq!(continue_restart_game(), AppState::InGame);
}

#[test]
fn clean_up_restores_defaults() {
    let mut s = Session::new();
    s.mode = InGameState::Play;
    s.score = 9;
    s.brick_row_cooldown_ms = 3;
    s.settings.brick_ghost = true;
    s.clean_up();
    assert_eq!(s.mode, InGameState::Idle);
    assert_eq!(s.score, 0);
    assert_eq!(s.brick_row_cooldown_ms, BRICK_ROW_INTERVAL_MS);
    assert_eq!(s.settings, Settings::new());
}

#[test]
fn score_saturates() {
    let mut s = Session::new();
    s.award(3);
    assert_eq!(s.score, 3);
    s.score = u64::MAX - 1;
    s.award(5);
    assert_eq!(s.score, u64::MAX);
}

#[test]
fn brick_row_cooldown_runs_out() {
    let mut s = Session::new();
    assert!(!s.advance_brick_row_cooldown(4000));
    assert_eq!(s.brick_row_cooldown_ms, BRICK_ROW_INTERVAL_MS - 4000);
    assert!(s.advance_brick_row_cooldown(6000));
    assert_eq!(s.brick_row_cooldown_ms, BRICK_ROW_INTERVAL_MS);
}

#[test]
fn change_points_clamps_at_both_ends() {
    let mut p = Steps::new();
    assert_eq!(p.points, DEFAULT_POINTS);
    for _ in 0..20 {
        p.change_points(1);
    }
    assert_eq!(p.points, MAX_POINTS);
    p.change_points(1);
    assert_eq!(p.points, MAX_POINTS);
    for _ in 0..20 {
        p.change_points(-1);
    }
    assert_eq!(p.points, MIN_POINTS);
    p.change_points(-1);
    assert_eq!(p.points, MIN_POINTS);
    p.change_points(3);
    assert_eq!(p.points, 3);
}

#[test]
fn derived_values_follow_steps() {
    let mut s = Settings::new();
    assert_eq!(s.ball_radius(), 11_000);
    assert_eq!(s.ball_speed(), 500);
    assert_eq!(s.paddle_half_width(), 40_000);
    assert_eq!(s.paddle_speed(), 500);
    s.ball_speed.change_points(1);
    s.ball_size.change_points(-1);
    assert_eq!(s.ball_speed(), 550);
    assert_eq!(s.ball_radius(), 10_000);
}

#[test]
fn settings_keys_step_selected_settings() {
    let mut s = Settings::new();
    let raise = SettingsInput { raise: true, ball_speed: true, paddle_size: true, brick_ghost: true, ..no_keys() };
    test_settings(&mut s, &raise);
    assert_eq!(s.ball_speed.points, DEFAULT_POINTS + 1);
    assert_eq!(s.paddle_size.points, DEFAULT_POINTS + 1);
    assert_eq!(s.ball_size.points, DEFAULT_POINTS);
    assert!(s.brick_ghost);
    let both = SettingsInput { lower: true, raise: true, ball_speed: true, brick_ghost: true, ..no_keys() };
    test_settings(&mut s, &both);
    assert_eq!(s.ball_speed.points, DEFAULT_POINTS);
    assert!(!s.brick_ghost);
    let selected_only = SettingsInput { ball_speed: true, ..no_keys() };
    let before = s;
    test_settings(&mut s, &selected_only);
    assert_eq!(s, before);
}

#[test]
fn repeated_raise_through_keys_stops_at_maximum() {
    let mut s = Settings::new();
    let raise = SettingsInput { raise: true, paddle_size: true, ..no_keys() };
    for _ in 0..8 {
        test_settings(&mut s, &raise);
    }
    assert_eq!(s.paddle_size.points, MAX_POINTS);
    assert_eq!(s.paddle_speed.points, DEFAULT_POINTS);
    let lower = SettingsInput { lower: true, ball_size: true, ..no_keys() };
    for _ in 0..3 {
        test_settings(&mut s, &lower);
    }
    assert_eq!(s.ball_size.points, DEFAULT_POINTS - 3);
    for _ in 0..9 {
        test_settings(&mut s, &lower);
    }
    assert_eq!(s.ball_size.points, MIN_POINTS);
}
