//! The event model of the multiplexer.
//!
//! Three independently paced sources — a redraw clock, the keyboard, and the
//! line reader — are merged into one stream of typed events. The merge loop
//! itself must suspend on outside sources, so it lives with the runtime glue
//! around this crate; the decisions it takes are the two functions here:
//! which terminal events are forwarded (key presses only), and how the
//! outcome of a line read is turned into an event (a read line becomes
//! `LineRead`; exhaustion and read failure are both collapsed into the
//! terminal `End` event, on purpose).

use vstd::prelude::*;

verus! {

/// Key identity, as far as the application distinguishes keys.
#[derive(Clone, Copy, PartialEq, Eq, Structural, Debug)]
pub enum KeyCode {
    Char(char),
    Up,
    Down,
    Left,
    Right,
    Enter,
    /// Any other key.
    Other,
}

/// How a key event was produced.
#[derive(Clone, Copy, PartialEq, Eq, Structural, Debug)]
pub enum KeyEventKind {
    Press,
    Repeat,
    Release,
}

/// A keyboard event: which key, and whether it was a press.
#[derive(Clone, Copy, PartialEq, Eq, Structural, Debug)]
pub struct KeyEvent {
    pub code: KeyCode,
    pub kind: KeyEventKind,
}

/// A raw terminal event as the multiplexer sees it: a keyboard event, or
/// anything else (resize, focus, paste, ...).
#[derive(Clone, Copy, PartialEq, Eq, Structural, Debug)]
pub enum TermEvent {
    Key(KeyEvent),
    Other,
}

/// The failure of a line read; carries no detail, since read failure is
/// treated exactly like exhaustion.
#[derive(Clone, Copy, PartialEq, Eq, Structural, Debug)]
pub struct ReadError;

/// One event of the merged stream.
#[derive(Clone, Debug)]
pub enum Event {
    /// Redraw clock tick; carries no payload.
    Tick,
    /// A key press (only presses are ever forwarded).
    Key(KeyEvent),
    /// One line read from the input source.
    LineRead(String),
    /// The input source is exhausted or failed; no further lines will come.
    End,
}

/// Which terminal events reach the merged stream: key presses, and nothing
/// else.
pub open spec fn spec_forward_key(evt: TermEvent) -> Option<Event> {
    match evt {
        TermEvent::Key(k) => if k.kind == KeyEventKind::Press {
            Some(Event::Key(k))
        } else {
            None
        },
        TermEvent::Other => None,
    }
}

/// Filters a raw terminal event: a key press is forwarded as `Event::Key`,
/// everything else (releases, repeats, non-key events) is dropped.
pub fn forward_key(evt: &TermEvent) -> (r: Option<Event>)
    ensures
        r == spec_forward_key(*evt),
{
    match evt {
        TermEvent::Key(k) => {
            if k.kind == KeyEventKind::Press {
                Some(Event::Key(*k))
            } else {
                None
            }
        },
        TermEvent::Other => None,
    }
}

/// Turns the outcome of one line read into an event: a line becomes
/// `LineRead`; exhaustion (`Ok(None)`) and failure (`Err`) both become the
/// terminal `End`.
pub fn line_read_event(line: Result<Option<String>, ReadError>) -> (r: Event)
    ensures
        (match line {
            Ok(Some(l)) => r == Event::LineRead(l),
            _ => r == Event::End,
        }),
{
    match line {
        Ok(Some(l)) => Event::LineRead(l),
        _ => Event::End,
    }
}

} // verus!
