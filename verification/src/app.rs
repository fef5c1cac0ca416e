//! Application core: all application state and the logic that drives it.
//!
//! The core owns the series store and the bounded line history. Processing a
//! line adds it to the history and yields the line's classified extractions;
//! for each extraction the caller parses the numeral, evaluates the smoothing
//! plan the core hands out — the blend itself is floating-point work and so
//! happens outside this crate — and commits the resulting value encoding
//! back with `insert`. Key handling is a pure state transition.

use crate::extract::{extract_metrics, spec_extractions, Extraction};
use crate::history::{spec_ring_add, RingBuffer};
use crate::event::KeyCode;
use crate::series::{points_of, series_insert_post, SeriesMap};
use crate::value::ONE_BITS;
use vstd::prelude::*;

verus! {

/// Which screen the interface is showing.
#[derive(Clone, Copy, PartialEq, Eq, Structural, Debug)]
pub enum UiState {
    /// Chart of the selected series.
    Plot,
    /// Raw-line display of the retained history.
    Passthrough,
    /// The key-selection dialog.
    KeySelection,
}

/// What the caller must do to turn a raw value into the stored one: keep it
/// as it is (first value of its series), or blend it with the previous
/// smoothed value by the exponential-moving-average rule.
#[derive(Clone, Copy, PartialEq, Eq, Structural, Debug)]
pub enum SmoothingPlan {
    /// First value of its series: store the raw value unchanged.
    UseRaw(u64),
    /// Blend: the stored value is `f * raw + (1 - f) * prev`, where `prev`
    /// is the previously stored (already smoothed) value of this series.
    Blend { prev: u64, raw: u64 },
}

/// The smoothing plan for inserting `raw` under key `k`: blend with the last
/// stored value when the series already has one, keep `raw` otherwise.
pub open spec fn spec_smoothing_plan(
    m: Map<Seq<char>, crate::series::Timeseries>,
    k: Seq<char>,
    raw: u64,
) -> SmoothingPlan {
    if m.contains_key(k) && m[k].spec_points().len() > 0 {
        SmoothingPlan::Blend { prev: m[k].spec_points().last().1, raw }
    } else {
        SmoothingPlan::UseRaw(raw)
    }
}

/// Smoothing chains on the stored (already smoothed) values, not on the raw
/// inputs: right after a value is stored under a key, the smoothing plan for
/// the next raw value of that key blends with exactly that stored value.
pub proof fn lemma_plan_uses_last_stored(
    m0: Map<Seq<char>, crate::series::Timeseries>,
    m1: Map<Seq<char>, crate::series::Timeseries>,
    key: Seq<char>,
    value: u64,
    raw: u64,
)
    requires
        series_insert_post(m0, m1, key, value),
    ensures
        spec_smoothing_plan(m1, key, raw) == (SmoothingPlan::Blend { prev: value, raw }),
{
    assert(m1[key].spec_points().last().1 == value);
}

/// The whole application state: parsed series, display selections, the
/// smoothing factor and the retained raw lines.
pub struct AppState {
    /// One series per extracted metric key.
    pub data: SeriesMap,
    /// The key whose series the plot shows, once any key exists.
    pub display_key: Option<String>,
    /// Which screen the interface is showing.
    pub ui_state: UiState,
    /// Cursor of the key-selection dialog.
    pub selection_list_state: Option<usize>,
    /// Encoding of the smoothing factor, fixed at construction.
    pub ema_factor: u64,
    /// The retained raw lines.
    pub linebuf: RingBuffer<String>,
}

/// The state a fresh application starts from.
pub open spec fn is_default_state(s: AppState) -> bool {
    &&& s.data@ == Map::<Seq<char>, crate::series::Timeseries>::empty()
    &&& s.data.spec_num_keys() == 0
    &&& s.display_key is None
    &&& s.ui_state == UiState::Plot
    &&& s.selection_list_state == Some(0usize)
    &&& s.ema_factor == ONE_BITS
    &&& s.linebuf@ == Seq::<String>::empty()
    &&& s.linebuf.capacity() == 10
}

impl Default for AppState {
    /// Empty store and history (capacity 10), plot screen, cursor at the
    /// top, smoothing factor one (no smoothing).
    fn default() -> (r: Self)
        ensures
            is_default_state(r),
    {
        AppState {
            data: SeriesMap::new(),
            display_key: None,
            ui_state: UiState::Plot,
            selection_list_state: Some(0),
            ema_factor: ONE_BITS,
            linebuf: RingBuffer::new(10),
        }
    }
}

impl AppState {
    pub fn new() -> (r: Self)
        ensures
            is_default_state(r),
    {
        Self::default()
    }

    /// Stores an already-smoothed value under `key`, appending it to that
    /// series at its next step and widening the extrema; no other state
    /// changes.
    pub fn insert(&mut self, key: &str, value: u64)
        ensures
            series_insert_post(old(self).data@, final(self).data@, key@, value),
            final(self).data.spec_num_keys() == old(self).data.spec_num_keys() + (if old(
                self,
            ).data@.contains_key(key@) {
                0int
            } else {
                1int
            }),
            final(self).display_key == old(self).display_key,
            final(self).ui_state == old(self).ui_state,
            final(self).selection_list_state == old(self).selection_list_state,
            final(self).ema_factor == old(self).ema_factor,
            final(self).linebuf == old(self).linebuf,
    {
        self.data.insert(key, value);
    }

    /// How a raw value must be smoothed before it is stored under `key`.
    pub fn smoothing_plan(&self, key: &str, raw: u64) -> (p: SmoothingPlan)
        ensures
            p == spec_smoothing_plan(self.data@, key@, raw),
    {
        match self.data.get(key) {
            Some(t) => match t.last_value() {
                Some(prev) => SmoothingPlan::Blend { prev, raw },
                None => SmoothingPlan::UseRaw(raw),
            },
            None => SmoothingPlan::UseRaw(raw),
        }
    }

    /// The next step of `key`'s series: the number of points it holds, zero
    /// when the key is unknown.
    pub fn max_t(&self, key: &str) -> (r: usize)
        ensures
            r == points_of(self.data@, key@).len(),
    {
        match self.data.get(key) {
            Some(t) => t.len(),
            None => 0,
        }
    }
}

/// Application: all state and logic, none of the terminal handling.
pub struct App {
    /// Is the application running?
    pub running: bool,
    /// The whole application state (buffered lines, parsed values, ...).
    pub state: AppState,
}

impl Default for App {
    fn default() -> (r: Self)
        ensures
            r.running,
            is_default_state(r.state),
    {
        App { running: true, state: AppState::default() }
    }
}

/// Cursor movement one step up: stay at the top, otherwise one back;
/// nothing happens without a cursor.
pub open spec fn spec_select_prev(sel: Option<usize>) -> Option<usize> {
    match sel {
        None => None,
        Some(i) => if i == 0 {
            Some(0usize)
        } else {
            Some((i - 1) as usize)
        },
    }
}

/// Cursor movement one step down among `num_keys` entries: stays put on the
/// last entry (or beyond it, or when there are no entries), otherwise one
/// forward; nothing happens without a cursor.
pub open spec fn spec_select_next(sel: Option<usize>, num_keys: nat) -> Option<usize> {
    match sel {
        None => None,
        Some(i) => if num_keys == 0 || i >= (num_keys - 1) as nat {
            Some(i)
        } else {
            Some((i + 1) as usize)
        },
    }
}

/// What confirming the key-selection dialog does: with the cursor on a
/// valid entry, that entry of the sorted key list becomes the displayed key
/// and the plot screen is shown; in every other situation (other screen, no
/// cursor, cursor out of range) nothing changes.
pub open spec fn enter_post(pre: App, post: App) -> bool {
    &&& post.running == pre.running
    &&& if pre.state.ui_state == UiState::KeySelection {
        match pre.state.selection_list_state {
            Some(idx) => if idx < pre.state.data.spec_num_keys() {
                &&& post.state.ui_state == UiState::Plot
                &&& (post.state.display_key matches Some(s) && s@ == pre.state.data.spec_keys()[
                    idx as int
                ])
                &&& post.state.selection_list_state == pre.state.selection_list_state
                &&& post.state.data == pre.state.data
                &&& post.state.ema_factor == pre.state.ema_factor
                &&& post.state.linebuf == pre.state.linebuf
            } else {
                post.state == pre.state
            },
            None => post.state == pre.state,
        }
    } else {
        post.state == pre.state
    }
}

impl App {
    /// A fresh application: running, with the given history capacity and
    /// smoothing-factor encoding, everything else at its default.
    pub fn new(line_buffer_length: usize, ema_factor: u64) -> (r: Self)
        ensures
            r.running,
            r.state.data@ == Map::<Seq<char>, crate::series::Timeseries>::empty(),
            r.state.data.spec_num_keys() == 0,
            r.state.display_key is None,
            r.state.ui_state == UiState::Plot,
            r.state.selection_list_state == Some(0usize),
            r.state.ema_factor == ema_factor,
            r.state.linebuf@ == Seq::<String>::empty(),
            r.state.linebuf.capacity() == line_buffer_length,
    {
        App {
            running: true,
            state: AppState {
                linebuf: RingBuffer::new(line_buffer_length),
                ema_factor,
                data: SeriesMap::new(),
                display_key: None,
                ui_state: UiState::Plot,
                selection_list_state: Some(0),
            },
        }
    }

    /// Stops the application; nothing else changes.
    pub fn quit(&mut self)
        ensures
            !final(self).running,
            final(self).state == old(self).state,
    {
        self.running = false;
    }

    /// Stores an already-smoothed value under `key`. The very first key ever
    /// stored becomes the displayed key; afterwards the selection is kept.
    pub fn insert(&mut self, key: &str, value: u64)
        ensures
            series_insert_post(old(self).state.data@, final(self).state.data@, key@, value),
            final(self).state.data.spec_num_keys() == old(self).state.data.spec_num_keys() + (
            if old(self).state.data@.contains_key(key@) {
                0int
            } else {
                1int
            }),
            old(self).state.data.spec_num_keys() == 0 ==> (final(self).state.display_key matches
                Some(s) && s@ == key@),
            old(self).state.data.spec_num_keys() != 0 ==> final(self).state.display_key == old(
                self,
            ).state.display_key,
            final(self).running == old(self).running,
            final(self).state.ui_state == old(self).state.ui_state,
            final(self).state.selection_list_state == old(self).state.selection_list_state,
            final(self).state.ema_factor == old(self).state.ema_factor,
            final(self).state.linebuf == old(self).state.linebuf,
    {
        if self.state.data.len() == 0 {
            self.state.display_key = Some(String::from_str(key));
        }
        self.state.insert(key, value);
    }

    /// Adds the raw line to the history and returns its classified
    /// extractions, in left-to-right match order. The caller parses each
    /// numeral, asks for the smoothing plan and commits the result with
    /// `insert`, in this order; nothing else of the state changes here.
    pub fn process_line(&mut self, line: &str) -> (pending: Vec<Extraction>)
        ensures
            pending@.map_values(|e: Extraction| e@) == spec_extractions(line@),
            final(self).state.linebuf@.map_values(|s: String| s@) == spec_ring_add(
                old(self).state.linebuf@.map_values(|s: String| s@),
                line@,
                old(self).state.linebuf.capacity(),
            ),
            final(self).state.linebuf.capacity() == old(self).state.linebuf.capacity(),
            final(self).state.data == old(self).state.data,
            final(self).state.display_key == old(self).state.display_key,
            final(self).state.ui_state == old(self).state.ui_state,
            final(self).state.selection_list_state == old(self).state.selection_list_state,
            final(self).state.ema_factor == old(self).state.ema_factor,
            final(self).running == old(self).running,
    {
        let stored = String::from_str(line);
        self.state.linebuf.add(stored);
        proof {
            assert(self.state.linebuf@.map_values(|s: String| s@) =~= spec_ring_add(
                old(self).state.linebuf@.map_values(|s: String| s@),
                line@,
                old(self).state.linebuf.capacity(),
            ));
        }
        extract_metrics(line)
    }

    fn select_previous(&mut self)
        ensures
            final(self).running == old(self).running,
            final(self).state.selection_list_state == spec_select_prev(
                old(self).state.selection_list_state,
            ),
            final(self).state.data == old(self).state.data,
            final(self).state.display_key == old(self).state.display_key,
            final(self).state.ui_state == old(self).state.ui_state,
            final(self).state.ema_factor == old(self).state.ema_factor,
            final(self).state.linebuf == old(self).state.linebuf,
    {
        match self.state.selection_list_state {
            None => (),
            Some(idx) => {
                if idx > 0 {
                    self.state.selection_list_state = Some(idx - 1);
                }
            },
        }
    }

    fn select_next(&mut self)
        ensures
            final(self).running == old(self).running,
            final(self).state.selection_list_state == spec_select_next(
                old(self).state.selection_list_state,
                old(self).state.data.spec_num_keys(),
            ),
            final(self).state.data == old(self).state.data,
            final(self).state.display_key == old(self).state.display_key,
            final(self).state.ui_state == old(self).state.ui_state,
            final(self).state.ema_factor == old(self).state.ema_factor,
            final(self).state.linebuf == old(self).state.linebuf,
    {
        let num_keys = self.state.data.len();
        match self.state.selection_list_state {
            None => (),
            Some(idx) => {
                if num_keys > 0 && idx < num_keys - 1 {
                    self.state.selection_list_state = Some(idx + 1);
                }
            },
        }
    }

    fn enter_pressed(&mut self)
        ensures
            enter_post(*old(self), *final(self)),
    {
        match self.state.ui_state {
            UiState::Plot => (),
            UiState::Passthrough => (),
            UiState::KeySelection => {
                match self.state.selection_list_state {
                    None => (),
                    Some(idx) => {
                        let keys = self.state.data.keys();
                        if idx < keys.len() {
                            let next_key = keys[idx].clone();
                            self.state.display_key = Some(next_key);
                            self.state.ui_state = UiState::Plot;
                        }
                    },
                }
            },
        }
    }

    /// Applies one key press: `q` quits, `p` toggles the passthrough
    /// screen, the arrow keys open the key-selection dialog and move its
    /// cursor, `Enter` confirms it; any other key does nothing.
    pub fn handle_keypress(&mut self, code: KeyCode)
        ensures
            final(self).state.data == old(self).state.data,
            final(self).state.ema_factor == old(self).state.ema_factor,
            final(self).state.linebuf == old(self).state.linebuf,
            (match code {
                KeyCode::Char(c) => {
                    if c == 'q' || c == 'Q' {
                        &&& !final(self).running
                        &&& final(self).state == old(self).state
                    } else if c == 'p' || c == 'P' {
                        &&& final(self).running == old(self).running
                        &&& final(self).state.ui_state == (if old(self).state.ui_state
                            == UiState::Passthrough {
                            UiState::Plot
                        } else {
                            UiState::Passthrough
                        })
                        &&& final(self).state.display_key == old(self).state.display_key
                        &&& final(self).state.selection_list_state == old(
                            self,
                        ).state.selection_list_state
                    } else {
                        *final(self) == *old(self)
                    }
                },
                KeyCode::Up | KeyCode::Left => {
                    &&& final(self).running == old(self).running
                    &&& final(self).state.display_key == old(self).state.display_key
                    &&& final(self).state.ui_state == UiState::KeySelection
                    &&& final(self).state.selection_list_state == (if old(self).state.ui_state
                        == UiState::KeySelection {
                        spec_select_prev(old(self).state.selection_list_state)
                    } else {
                        old(self).state.selection_list_state
                    })
                },
                KeyCode::Down | KeyCode::Right => {
                    &&& final(self).running == old(self).running
                    &&& final(self).state.display_key == old(self).state.display_key
                    &&& final(self).state.ui_state == UiState::KeySelection
                    &&& final(self).state.selection_list_state == (if old(self).state.ui_state
                        == UiState::KeySelection {
                        spec_select_next(
                            old(self).state.selection_list_state,
                            old(self).state.data.spec_num_keys(),
                        )
                    } else {
                        old(self).state.selection_list_state
                    })
                },
                KeyCode::Enter => enter_post(*old(self), *final(self)),
                KeyCode::Other => *final(self) == *old(self),
            }),
    {
        match code {
            KeyCode::Char(c) => {
                if c == 'q' || c == 'Q' {
                    self.quit();
                } else if c == 'p' || c == 'P' {
                    self.state.ui_state = match self.state.ui_state {
                        UiState::Passthrough => UiState::Plot,
                        _ => UiState::Passthrough,
                    };
                }
            },
            KeyCode::Up | KeyCode::Left => {
                match self.state.ui_state {
                    UiState::KeySelection => self.select_previous(),
                    _ => {
                        self.state.ui_state = UiState::KeySelection;
                    },
                }
            },
            KeyCode::Down | KeyCode::Right => {
                match self.state.ui_state {
                    UiState::KeySelection => self.select_next(),
                    _ => {
                        self.state.ui_state = UiState::KeySelection;
                    },
                }
            },
            KeyCode::Enter => self.enter_pressed(),
            KeyCode::Other => (),
        }
    }
}

} // verus!
