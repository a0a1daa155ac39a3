//! Events of the main loop, and the filter deciding which terminal events
//! reach it. The background task that multiplexes the timer, the terminal
//! input and the injected follow-up events into one queue performs I/O and
//! lives with the unverified plumbing; the decision of what it forwards is
//! the verified `filter_terminal_event`.

use vstd::prelude::*;

verus! {

/// A key, as the dashboard reads it.
#[derive(Debug, Clone, Copy, PartialEq, Eq, Structural)]
pub enum KeyCode {
    Esc,
    Up,
    Down,
    Left,
    Right,
    PageUp,
    PageDown,
    Char(char),
    /// any key no binding speaks of
    Other,
}

/// One key press: the key and whether Control was held.
#[derive(Debug, Clone, Copy, PartialEq, Eq, Structural)]
pub struct KeyEvent {
    pub code: KeyCode,
    pub ctrl: bool,
}

/// One event of the main loop's queue.
#[derive(Debug, Clone, Copy, PartialEq, Eq, Structural)]
pub enum Event {
    Tick,
    Key(KeyEvent),
    Resize(u16, u16),
    RefreshJobsForServer,
    RefreshLogsForJob,
}

/// What the terminal reports: a key with its press/release kind (`true`
/// for a press), focus changes, mouse activity, pasted text, or a resize.
#[derive(Debug, Clone, Copy, PartialEq, Eq, Structural)]
pub enum TermEvent {
    FocusGained,
    FocusLost,
    Key(KeyEvent, bool),
    Mouse,
    Paste,
    Resize(u16, u16),
}

/// What the producer forwards of one terminal event: key presses and
/// resizes; key releases and repeats, focus, mouse and paste events are
/// discarded.
pub open spec fn spec_filter_event(e: TermEvent) -> Option<Event> {
    match e {
        TermEvent::Key(k, is_press) => if is_press {
            Some(Event::Key(k))
        } else {
            None
        },
        TermEvent::Resize(w, h) => Some(Event::Resize(w, h)),
        _ => None,
    }
}

/// Decides which terminal events reach the main loop's queue.
pub fn filter_terminal_event(e: &TermEvent) -> (r: Option<Event>)
    ensures
        r == spec_filter_event(*e),
{
    match e {
        TermEvent::Key(k, is_press) => {
            if *is_press {
                Some(Event::Key(*k))
            } else {
                None
            }
        },
        TermEvent::Resize(w, h) => Some(Event::Resize(*w, *h)),
        _ => None,
    }
}

} // verus!
