//! Smoothing, extrema, steps, classification and navigation behavior.

use ezboard::app::{App, SmoothingPlan, UiState};
use ezboard::event::KeyCode;
use ezboard::value;

fn process_line_full(app: &mut App, line: &str) {
    let pending = app.process_line(line);
    for ext in pending {
        let raw: f64 = match ext.numeral.parse() {
            Ok(v) => v,
            Err(_) => continue,
        };
        let plan = app.state.smoothing_plan(&ext.key, raw.to_bits());
        let smoothed = match plan {
            SmoothingPlan::UseRaw(v) => v,
            SmoothingPlan::Blend { prev, raw } => {
                let f = f64::from_bits(app.state.ema_factor);
                (f * f64::from_bits(raw) + (1.0 - f) * f64::from_bits(prev)).to_bits()
            }
        };
        app.insert(&ext.key, smoothed);
    }
}

fn new_app(line_buffer_length: usize, ema_factor: f64) -> App {
    App::new(line_buffer_length, ema_factor.to_bits())
}

fn last_value(app: &App, key: &str) -> f64 {
    f64::from_bits(app.state.data.get(key).expect("key missing").get_data().last().unwrap().1)
}

#[test]
fn ema_factor_one_is_identity() {
    let mut app = new_app(5, 1.0);
    process_line_full(&mut app, "loss 1.0");
    process_line_full(&mut app, "loss 0.3");
    process_line_full(&mut app, "loss -7.25");
    let data = app.state.data.get("loss").unwrap().get_data().clone();
    assert_eq!(f64::from_bits(data[0].1), 1.0);
    assert_eq!(f64::from_bits(data[1].1), 0.3);
    assert_eq!(f64::from_bits(data[2].1), -7.25);
}

#[test]
fn ema_blends_with_stored_not_raw() {
    let mut app = new_app(5, 0.5);
    process_line_full(&mut app, "loss 1.0");
    process_line_full(&mut app, "loss 2.0");
    // 0.5 * 2.0 + 0.5 * 1.0
    assert_eq!(last_value(&app, "loss"), 1.5);
    process_line_full(&mut app, "loss 3.0");
    // chains on the stored 1.5, not on the raw 2.0
    assert_eq!(last_value(&app, "loss"), 0.5 * 3.0 + 0.5 * 1.5);
    assert_eq!(last_value(&app, "loss"), 2.25);
}

#[test]
fn smoothing_plan_hands_out_stored_value() {
    let mut app = new_app(5, 0.5);
    process_line_full(&mut app, "loss 1.0");
    process_line_full(&mut app, "loss 2.0");
    let plan = app.state.smoothing_plan("loss", (9.0f64).to_bits());
    assert_eq!(
        plan,
        SmoothingPlan::Blend { prev: (1.5f64).to_bits(), raw: (9.0f64).to_bits() }
    );
    let plan_fresh = app.state.smoothing_plan("unseen_loss", (9.0f64).to_bits());
    assert_eq!(plan_fresh, SmoothingPlan::UseRaw((9.0f64).to_bits()));
}

#[test]
fn steps_count_prior_insertions_per_key() {
    let mut app = new_app(5, 1.0);
    process_line_full(&mut app, "loss 1.0, acc 2.0");
    process_line_full(&mut app, "loss 3.0");
    let loss = app.state.data.get("loss").unwrap().get_data().clone();
    assert_eq!(loss[0].0, 0);
    assert_eq!(loss[1].0, 1);
    let acc = app.state.data.get("acc").unwrap().get_data().clone();
    assert_eq!(acc[0].0, 0);
    assert_eq!(app.state.max_t("loss"), 2);
    assert_eq!(app.state.max_t("acc"), 1);
    assert_eq!(app.state.max_t("never"), 0);
}

#[test]
fn case_sensitive_keys_are_distinct_series() {
    let mut app = new_app(5, 1.0);
    process_line_full(&mut app, "loss 1.0");
    process_line_full(&mut app, "Loss 2.0");
    let lower = app.state.data.get("loss").unwrap().get_data().clone();
    let upper = app.state.data.get("Loss").unwrap().get_data().clone();
    assert_eq!(lower, vec![(0, (1.0f64).to_bits())]);
    assert_eq!(upper, vec![(0, (2.0f64).to_bits())]);
}

#[test]
fn extrema_only_widen() {
    let mut app = new_app(5, 1.0);
    let series_min_max = |app: &App| {
        let t = app.state.data.get("loss").unwrap();
        (f64::from_bits(t.get_min()), f64::from_bits(t.get_max()))
    };
    process_line_full(&mut app, "loss 5.0");
    assert_eq!(series_min_max(&app), (5.0, 5.0));
    process_line_full(&mut app, "loss 1.0");
    assert_eq!(series_min_max(&app), (1.0, 5.0));
    process_line_full(&mut app, "loss 3.0");
    // an in-between value narrows nothing
    assert_eq!(series_min_max(&app), (1.0, 5.0));
    process_line_full(&mut app, "loss -2.0");
    assert_eq!(series_min_max(&app), (-2.0, 5.0));
}

#[test]
fn fresh_series_extrema_start_at_sentinels() {
    let app = new_app(5, 1.0);
    assert!(app.state.data.get("loss").is_none());
    assert_eq!(f64::from_bits(value::INF_BITS), f64::INFINITY);
    assert_eq!(f64::from_bits(value::NEG_INF_BITS), f64::NEG_INFINITY);
}

#[test]
fn value_order_matches_float_order() {
    let pairs: Vec<(f64, f64)> = vec![
        (1.0, 3.0),
        (-1.0, 1.0),
        (-3.5, -1.25),
        (0.0, 1.0),
        (f64::NEG_INFINITY, -1e308),
        (1e308, f64::INFINITY),
        (1.5e-10, 2.0),
    ];
    for (a, b) in pairs {
        assert_eq!(
            f64::from_bits(value::val_min(a.to_bits(), b.to_bits())),
            a.min(b)
        );
        assert_eq!(
            f64::from_bits(value::val_max(a.to_bits(), b.to_bits())),
            a.max(b)
        );
        assert!(value::val_le_exec(a.to_bits(), b.to_bits()));
        assert!(!value::val_le_exec(b.to_bits(), a.to_bits()));
    }
}

#[test]
fn ema_factor_range_check() {
    assert!(value::valid_ema_bits((0.0f64).to_bits()));
    assert!(value::valid_ema_bits((-0.0f64).to_bits()));
    assert!(value::valid_ema_bits((0.5f64).to_bits()));
    assert!(value::valid_ema_bits((1.0f64).to_bits()));
    assert!(!value::valid_ema_bits((1.0000000001f64).to_bits()));
    assert!(!value::valid_ema_bits((-0.1f64).to_bits()));
    assert!(!value::valid_ema_bits((2.0f64).to_bits()));
    assert!(!value::valid_ema_bits(f64::INFINITY.to_bits()));
    assert!(!value::valid_ema_bits(f64::NAN.to_bits()));
}

#[test]
fn first_key_becomes_display_key() {
    let mut app = new_app(5, 1.0);
    assert!(app.state.display_key.is_none());
    process_line_full(&mut app, "cost 2.0, loss 1.0");
    assert_eq!(app.state.display_key.as_deref(), Some("cost"));
    process_line_full(&mut app, "loss 3.0");
    assert_eq!(app.state.display_key.as_deref(), Some("cost"));
}

#[test]
fn every_line_reaches_history() {
    let mut app = new_app(3, 1.0);
    process_line_full(&mut app, "no metrics here");
    process_line_full(&mut app, "loss 1.0");
    let v: Vec<String> = app.state.linebuf.iter().cloned().collect();
    assert_eq!(v, vec!["no metrics here".to_string(), "loss 1.0".to_string()]);
}

#[test]
fn keys_listing_is_sorted() {
    let mut app = new_app(5, 1.0);
    process_line_full(&mut app, "loss 1.0");
    process_line_full(&mut app, "Loss 2.0");
    process_line_full(&mut app, "acc 3.0");
    assert_eq!(
        app.state.data.keys(),
        vec!["Loss".to_string(), "acc".to_string(), "loss".to_string()]
    );
    assert_eq!(app.state.data.len(), 3);
}

#[test]
fn quit_key_stops_the_app() {
    let mut app = new_app(5, 1.0);
    assert!(app.running);
    app.handle_keypress(KeyCode::Char('x'));
    assert!(app.running);
    app.handle_keypress(KeyCode::Char('q'));
    assert!(!app.running);
    let mut app2 = new_app(5, 1.0);
    app2.handle_keypress(KeyCode::Char('Q'));
    assert!(!app2.running);
}

#[test]
fn passthrough_toggles() {
    let mut app = new_app(5, 1.0);
    assert_eq!(app.state.ui_state, UiState::Plot);
    app.handle_keypress(KeyCode::Char('p'));
    assert_eq!(app.state.ui_state, UiState::Passthrough);
    app.handle_keypress(KeyCode::Char('P'));
    assert_eq!(app.state.ui_state, UiState::Plot);
}

#[test]
fn selection_walks_sorted_keys() {
    let mut app = new_app(5, 1.0);
    process_line_full(&mut app, "loss 1.0");
    process_line_full(&mut app, "Loss 2.0");
    process_line_full(&mut app, "acc 3.0");
    // sorted by code point: "Loss" < "acc" < "loss"
    assert_eq!(app.state.display_key.as_deref(), Some("loss"));
    app.handle_keypress(KeyCode::Down);
    assert_eq!(app.state.ui_state, UiState::KeySelection);
    assert_eq!(app.state.selection_list_state, Some(0));
    app.handle_keypress(KeyCode::Down);
    assert_eq!(app.state.selection_list_state, Some(1));
    app.handle_keypress(KeyCode::Enter);
    assert_eq!(app.state.ui_state, UiState::Plot);
    assert_eq!(app.state.display_key.as_deref(), Some("acc"));
    // moving up from the top stays at the top
    app.handle_keypress(KeyCode::Up);
    app.handle_keypress(KeyCode::Up);
    app.handle_keypress(KeyCode::Up);
    assert_eq!(app.state.selection_list_state, Some(0));
    // moving down past the last entry stays on it
    app.handle_keypress(KeyCode::Down);
    app.handle_keypress(KeyCode::Down);
    app.handle_keypress(KeyCode::Down);
    app.handle_keypress(KeyCode::Down);
    assert_eq!(app.state.selection_list_state, Some(2));
    app.handle_keypress(KeyCode::Enter);
    assert_eq!(app.state.display_key.as_deref(), Some("loss"));
}

#[test]
fn enter_with_no_keys_changes_nothing() {
    let mut app = new_app(5, 1.0);
    app.handle_keypress(KeyCode::Right);
    assert_eq!(app.state.ui_state, UiState::KeySelection);
    app.handle_keypress(KeyCode::Enter);
    assert_eq!(app.state.ui_state, UiState::KeySelection);
    assert!(app.state.display_key.is_none());
    assert!(app.running);
}
