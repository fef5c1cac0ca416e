//! Line-processing behavior of the application core, driven the way the
//! surrounding program drives it: extract, parse the numeral, evaluate the
//! smoothing plan in floating point, and commit the value encoding.

use ezboard::app::{App, SmoothingPlan};

fn process_line_full(app: &mut App, line: &str) {
    let pending = app.process_line(line);
    for ext in pending {
        let raw: f64 = match ext.numeral.parse() {
            Ok(v) => v,
            Err(_) => continue,
        };
        let plan = app.state.smoothing_plan(&ext.key, raw.to_bits());
        let smoothed = match plan {
            SmoothingPlan::UseRaw(v) => v,
            SmoothingPlan::Blend { prev, raw } => {
                let f = f64::from_bits(app.state.ema_factor);
                (f * f64::from_bits(raw) + (1.0 - f) * f64::from_bits(prev)).to_bits()
            }
        };
        app.insert(&ext.key, smoothed);
    }
}

fn test_vec(app: &mut App, test_lines: Vec<(&str, &str, f64, f64)>) {
    for (line, key, t_exp, val_exp) in test_lines {
        process_line_full(app, line);
        let series = app
            .state
            .data
            .get(key)
            .unwrap_or_else(|| panic!("No entry for key {}!\nLine was {}", key, line));
        let (t, val) = *series.get_data().last().expect("No value added");
        assert_eq!(f64::from_bits(val), val_exp, "Wrong loss value for line {}", line);
        assert_eq!(t as f64, t_exp, "Wrong t value for line {}", line);
    }
}

fn new_app(line_buffer_length: usize, ema_factor: f64) -> App {
    App::new(line_buffer_length, ema_factor.to_bits())
}

#[test]
fn simple_parse() {
    let mut app = new_app(5, 1.0);

    let test_lines = vec![
        ("loss 1.0", "loss", 0.0, 1.0),
        ("loss 2", "loss", 1.0, 2.0),
        ("Loss 3.1", "Loss", 0.0, 3.1),
        ("Loss 4", "Loss", 1.0, 4.0),
    ];

    test_vec(&mut app, test_lines);
}

#[test]
fn skip_lines() {
    let mut app = new_app(5, 1.0);

    let test_lines = vec![
        ("loss 1.0", "loss", 0.0, 1.0),
        ("empty 2.0", "loss", 0.0, 1.0),
        ("loss 3.0", "loss", 1.0, 3.0),
    ];

    test_vec(&mut app, test_lines)
}

#[test]
fn hard_parse() {
    let mut app = new_app(5, 1.0);

    let test_lines = vec![
        ("loss 0.0", "loss", 0.0, 0.0),
        ("loss 1.0, acc 2.0", "loss", 1.0, 1.0),
        ("MainLoss 2.0, AuxLoss 3.0, acc 2.0", "MainLoss", 0.0, 2.0),
        ("loss Loss loss Loss acc 4.0", "acc", 2.0, 4.0),
        ("Loss loss loss loss 120.0", "loss", 2.0, 120.0),
        ("accuracy 100%", "accuracy", 0.0, 100.0),
    ];

    test_vec(&mut app, test_lines);
}

#[test]
fn multi_vals_per_line() {
    let mut app = new_app(5, 1.0);

    process_line_full(&mut app, "loss 0.0, acc 2.0, mainloss 3.0");
    process_line_full(&mut app, "loss 5.0, acc 2.0, loss 4.0");
    let value = |key: &str, idx: usize| -> f64 {
        f64::from_bits(app.state.data.get(key).expect("Key not in data").get_data()[idx].1)
    };
    assert_eq!(value("loss", 0), 0.0);
    assert_eq!(value("acc", 0), 2.0);
    assert_eq!(value("mainloss", 0), 3.0);
    assert_eq!(value("loss", 1), 5.0);
    assert_eq!(value("acc", 1), 2.0);
    assert_eq!(value("loss", 2), 4.0);
}

#[test]
fn whitespace() {
    let mut app = new_app(5, 1.0);

    let test_lines = vec![
        ("loss\t1.0", "loss", 0.0, 1.0),
        ("loss\n2.0", "loss", 0.0, 1.0),
        ("loss    3.0", "loss", 1.0, 3.0),
        ("loss:\t4.0", "loss", 2.0, 4.0),
    ];

    test_vec(&mut app, test_lines);
}

#[test]
fn identifiers() {
    let mut app = new_app(5, 1.0);

    let test_lines = vec![
        ("loss 1.0", "loss", 0.0, 1.0),
        ("cost 2.0", "cost", 0.0, 2.0),
        ("error 3.0", "error", 0.0, 3.0),
        ("maincost 4.0", "maincost", 0.0, 4.0),
    ];

    test_vec(&mut app, test_lines);
}

#[test]
fn val_train_split() {
    let mut app = new_app(5, 1.0);

    let test_lines = vec![
        ("Epoch 0: Loss 1.0", "Loss", 0.0, 1.0),
        ("Val Epoch 0: Loss 2.0, acc 95%", "acc_val", 0.0, 95.0),
        ("Test Acc 100%", "Acc_test", 0.0, 100.0),
    ];

    test_vec(&mut app, test_lines);
}

#[test]
fn scientific() {
    let mut app = new_app(5, 1.0);

    let test_lines = vec![
        ("loss 1e-2", "loss", 0.0, 1e-2),
        ("cost -2e3", "cost", 0.0, -2e3),
        ("error 1.5e-10", "error", 0.0, 1.5e-10),
        ("loss 1.6e12", "loss", 1.0, 1.6e12),
    ];

    // We are testing for hard equality!
    test_vec(&mut app, test_lines);
}

#[test]
fn overflow() {
    let mut app = new_app(2, 1.0);

    process_line_full(&mut app, "loss 1.0");
    process_line_full(&mut app, "cost 2.0");
    process_line_full(&mut app, "error 3.0");

    let s = app
        .state
        .linebuf
        .peek()
        .expect("There should be an element in the buffer");
    assert_eq!(s, "cost 2.0");
}
