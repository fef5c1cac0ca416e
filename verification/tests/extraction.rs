//! The extractor on its own, and the event-model functions.

use ezboard::event::{
    forward_key, line_read_event, Event, KeyCode, KeyEvent, KeyEventKind, ReadError, TermEvent,
};
use ezboard::extract::extract_metrics;

fn pairs(line: &str) -> Vec<(String, String)> {
    extract_metrics(line)
        .into_iter()
        .map(|e| (e.key, e.numeral))
        .collect()
}

#[test]
fn no_suffix_token_extracts_nothing() {
    assert_eq!(pairs(""), vec![]);
    assert_eq!(pairs("empty 2.0"), vec![]);
    assert_eq!(pairs("12 monkeys 7"), vec![]);
    assert_eq!(pairs("lossy 1.0"), vec![]);
    assert_eq!(pairs("loss"), vec![]);
    assert_eq!(pairs("loss abc"), vec![]);
}

#[test]
fn token_must_end_on_word_boundary() {
    // the whole word ends in a suffix: the whole word is the key
    assert_eq!(
        pairs("mainloss 2.0"),
        vec![("mainloss".to_string(), "2.0".to_string())]
    );
    // a suffix in the middle of a word is no match
    assert_eq!(pairs("lossy2 1.0"), vec![]);
    // after a consumed numeral the rest of that word cannot start a match
    assert_eq!(
        pairs("loss 12cost 3"),
        vec![("loss".to_string(), "12".to_string())]
    );
}

#[test]
fn separators_and_numerals() {
    assert_eq!(pairs("loss: 7"), vec![("loss".to_string(), "7".to_string())]);
    assert_eq!(
        pairs("acc 95%"),
        vec![("acc".to_string(), "95".to_string())]
    );
    assert_eq!(
        pairs("cost -2e3"),
        vec![("cost".to_string(), "-2e3".to_string())]
    );
    assert_eq!(
        pairs("error 1.5E-10"),
        vec![("error".to_string(), "1.5E-10".to_string())]
    );
    // a dot without digits after it is not part of the numeral
    assert_eq!(pairs("loss 1."), vec![("loss".to_string(), "1".to_string())]);
    // a newline is not horizontal whitespace: the value is not attached
    assert_eq!(pairs("loss\n2.0"), vec![]);
}

#[test]
fn classification_suffixes() {
    assert_eq!(
        pairs("Val acc 95"),
        vec![("acc_val".to_string(), "95".to_string())]
    );
    assert_eq!(
        pairs("Test Acc 100%"),
        vec![("Acc_test".to_string(), "100".to_string())]
    );
    // "test" wins over "val" when both occur
    assert_eq!(
        pairs("validation test loss 1"),
        vec![("loss_test".to_string(), "1".to_string())]
    );
}

#[test]
fn matches_come_left_to_right() {
    assert_eq!(
        pairs("loss 0.0, acc 2.0, mainloss 3.0"),
        vec![
            ("loss".to_string(), "0.0".to_string()),
            ("acc".to_string(), "2.0".to_string()),
            ("mainloss".to_string(), "3.0".to_string()),
        ]
    );
}

#[test]
fn key_press_filter() {
    let press = TermEvent::Key(KeyEvent { code: KeyCode::Char('q'), kind: KeyEventKind::Press });
    let release = TermEvent::Key(KeyEvent { code: KeyCode::Char('q'), kind: KeyEventKind::Release });
    let repeat = TermEvent::Key(KeyEvent { code: KeyCode::Up, kind: KeyEventKind::Repeat });
    assert!(matches!(
        forward_key(&press),
        Some(Event::Key(KeyEvent { code: KeyCode::Char('q'), kind: KeyEventKind::Press }))
    ));
    assert!(forward_key(&release).is_none());
    assert!(forward_key(&repeat).is_none());
    assert!(forward_key(&TermEvent::Other).is_none());
}

#[test]
fn line_read_outcomes() {
    match line_read_event(Ok(Some("loss 1.0".to_string()))) {
        Event::LineRead(l) => assert_eq!(l, "loss 1.0"),
        _ => panic!("expected a LineRead event"),
    }
    assert!(matches!(line_read_event(Ok(None)), Event::End));
    assert!(matches!(line_read_event(Err(ReadError)), Event::End));
}
