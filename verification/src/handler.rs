//! The key dispatcher: a key press plus the current state become a state
//! mutation and, possibly, a follow-up event for the queue or a demand for
//! an immediate server reload. Global bindings (quit, pane switch) come
//! first; pane-scoped bindings follow, against the pane the global phase
//! left active. Keys matched by no active binding do nothing.

use vstd::prelude::*;

use crate::app::{
    jobs_cache_view, msg_invalid_pane, msg_quitting, msg_setting_pane, sel_view, spec_move,
    spec_page_step, spec_pane_after, spec_selected_cache_index, spec_selected_job, App,
    CacheEntryView, ScrollState,
};
use crate::event::{Event, KeyCode, KeyEvent};

verus! {

/// What one key press asks of the main loop besides the state mutation:
/// a follow-up event to enqueue, or an immediate server reload.
#[derive(Debug, Clone, Copy, PartialEq, Eq, Structural)]
pub struct KeyOutcome {
    /// an event for the queue, processed on a later loop turn
    pub follow_up: Option<Event>,
    /// reload the server mapping now, before the next event
    pub reload_servers: bool,
}

/// Neither a follow-up nor a reload.
pub open spec fn no_outcome() -> KeyOutcome {
    KeyOutcome { follow_up: None::<Event>, reload_servers: false }
}

/// Escape, `q`, or Control+C end the application.
pub open spec fn spec_is_quit_key(k: KeyEvent) -> bool {
    ||| k.code == KeyCode::Esc
    ||| k.code == (KeyCode::Char('q'))
    ||| (k.code == (KeyCode::Char('c')) && k.ctrl)
}

/// The digit a key carries, if it is a digit key.
pub open spec fn spec_digit_of(k: KeyEvent) -> Option<u8> {
    match k.code {
        KeyCode::Char(c) => if '0' <= c && c <= '9' {
            Some((c as int - 48) as u8)
        } else {
            None
        },
        _ => None,
    }
}

/// `j` or the down arrow: move forward.
pub open spec fn spec_is_next_key(c: KeyCode) -> bool {
    c == (KeyCode::Char('j')) || c == KeyCode::Down
}

/// `k` or the up arrow: move backward.
pub open spec fn spec_is_prev_key(c: KeyCode) -> bool {
    c == (KeyCode::Char('k')) || c == KeyCode::Up
}

/// The state after quitting: stopped, `Quitting` on the status line,
/// everything else untouched.
pub open spec fn spec_quit_effect(a: App, b: App) -> bool {
    &&& b.running == false
    &&& b.status@ == msg_quitting()
    &&& b.active_pane == a.active_pane
    &&& b.servers.servers == a.servers.servers
    &&& b.servers.server_state == a.servers.server_state
    &&& b.jobs == a.jobs
    &&& b.log_scroll_state == a.log_scroll_state
    &&& b.wrap_logs == a.wrap_logs
}

/// The state after a pane-switch request carrying `d`.
pub open spec fn spec_set_pane_effect(a: App, b: App, d: u8) -> bool {
    &&& b.active_pane == spec_pane_after(a.active_pane, d)
    &&& b.status@ == (if 1 <= d <= 3 {
        msg_setting_pane(d as nat)
    } else {
        msg_invalid_pane(d as nat)
    })
    &&& b.running == a.running
    &&& b.servers.servers == a.servers.servers
    &&& b.servers.server_state == a.servers.server_state
    &&& b.jobs == a.jobs
    &&& b.log_scroll_state == a.log_scroll_state
    &&& b.wrap_logs == a.wrap_logs
}

/// The state after a server-selection move: only the server selection
/// changes, by one step.
pub open spec fn spec_server_move_effect(a: App, b: App, forward: bool) -> bool {
    &&& sel_view(b.servers.server_state) == spec_move(
        sel_view(a.servers.server_state),
        a.servers.servers@.len() as int,
        forward,
    )
    &&& b.servers.servers == a.servers.servers
    &&& b.running == a.running
    &&& b.status == a.status
    &&& b.active_pane == a.active_pane
    &&& b.jobs == a.jobs
    &&& b.log_scroll_state == a.log_scroll_state
    &&& b.wrap_logs == a.wrap_logs
}

/// The state after a job-selection move: only the selected server's cache
/// entry changes, its selection moved one step; with no cache entry,
/// nothing changes.
pub open spec fn spec_job_move_effect(a: App, b: App, forward: bool) -> bool {
    match spec_selected_cache_index(a) {
        None => b == a,
        Some(j) => {
            let e = jobs_cache_view(a.jobs@)[j];
            &&& jobs_cache_view(b.jobs@) == jobs_cache_view(a.jobs@).update(
                j,
                (CacheEntryView {
                    selected: spec_move(e.selected, e.records.len() as int, forward),
                    ..e
                }),
            )
            &&& b.running == a.running
            &&& b.status == a.status
            &&& b.active_pane == a.active_pane
            &&& b.servers.servers == a.servers.servers
            &&& b.servers.server_state == a.servers.server_state
            &&& b.log_scroll_state == a.log_scroll_state
            &&& b.wrap_logs == a.wrap_logs
        },
    }
}

/// The scroll offset a log-pane key leaves: one row or column for the
/// arrows and `j`/`k`/`h`/`l`, one page less one row of overlap for
/// PageUp/PageDown; any other key leaves it alone.
pub open spec fn spec_scrolled(s: ScrollState, code: KeyCode) -> ScrollState {
    if spec_is_next_key(code) {
        ScrollState { y: s.y.saturating_add(1), ..s }
    } else if spec_is_prev_key(code) {
        ScrollState { y: s.y.saturating_sub(1), ..s }
    } else if code == (KeyCode::Char('h')) || code == KeyCode::Left {
        ScrollState { x: s.x.saturating_sub(1), ..s }
    } else if code == (KeyCode::Char('l')) || code == KeyCode::Right {
        ScrollState { x: s.x.saturating_add(1), ..s }
    } else if code == KeyCode::PageDown {
        ScrollState { y: s.y.saturating_add(spec_page_step(s)).saturating_sub(1), ..s }
    } else if code == KeyCode::PageUp {
        ScrollState { y: s.y.saturating_add(1).saturating_sub(spec_page_step(s)), ..s }
    } else {
        s
    }
}

/// The state after a log-pane key: the scroll offset moves as the key says,
/// `w` toggles wrapping, everything else is untouched.
pub open spec fn spec_scroll_effect(a: App, b: App, code: KeyCode) -> bool {
    &&& b.log_scroll_state == spec_scrolled(a.log_scroll_state, code)
    &&& b.wrap_logs == (if code == (KeyCode::Char('w')) {
        !a.wrap_logs
    } else {
        a.wrap_logs
    })
    &&& b.running == a.running
    &&& b.status == a.status
    &&& b.active_pane == a.active_pane
    &&& b.servers.servers == a.servers.servers
    &&& b.servers.server_state == a.servers.server_state
    &&& b.jobs == a.jobs
}

fn is_next_key(code: KeyCode) -> (r: bool)
    ensures
        r == spec_is_next_key(code),
{
    match code {
        KeyCode::Char(c) => c == 'j',
        KeyCode::Down => true,
        _ => false,
    }
}

fn is_prev_key(code: KeyCode) -> (r: bool)
    ensures
        r == spec_is_prev_key(code),
{
    match code {
        KeyCode::Char(c) => c == 'k',
        KeyCode::Up => true,
        _ => false,
    }
}

/// Applies one key press to the state: quit and pane-switch bindings first,
/// then the active pane's own bindings; returns the follow-up event to
/// enqueue, or the demand for an immediate server reload, if the key asked
/// for one.
pub fn handle_key_events(key_event: KeyEvent, app: &mut App) -> (r: KeyOutcome)
    requires
        old(app).wf(),
    ensures
        final(app).wf(),
        ({
            let a = *old(app);
            let b = *final(app);
            if spec_is_quit_key(key_event) {
                spec_quit_effect(a, b) && r == no_outcome()
            } else {
                match spec_digit_of(key_event) {
                    Some(d) => spec_set_pane_effect(a, b, d) && r == no_outcome(),
                    None => {
                        let code = key_event.code;
                        if a.active_pane == 1 {
                            if spec_is_next_key(code) {
                                spec_server_move_effect(a, b, true) && r == (KeyOutcome {
                                    follow_up: Some(Event::RefreshJobsForServer),
                                    reload_servers: false,
                                })
                            } else if spec_is_prev_key(code) {
                                spec_server_move_effect(a, b, false) && r == (KeyOutcome {
                                    follow_up: Some(Event::RefreshJobsForServer),
                                    reload_servers: false,
                                })
                            } else if code == (KeyCode::Char('r')) {
                                b == a && r == (KeyOutcome {
                                    follow_up: None::<Event>,
                                    reload_servers: true,
                                })
                            } else {
                                b == a && r == no_outcome()
                            }
                        } else if a.active_pane == 2 {
                            if spec_selected_cache_index(a) is Some {
                                if spec_is_next_key(code) {
                                    spec_job_move_effect(a, b, true) && r == (KeyOutcome {
                                        follow_up: Some(Event::RefreshLogsForJob),
                                        reload_servers: false,
                                    })
                                } else if spec_is_prev_key(code) {
                                    spec_job_move_effect(a, b, false) && r == (KeyOutcome {
                                        follow_up: Some(Event::RefreshLogsForJob),
                                        reload_servers: false,
                                    })
                                } else if code == (KeyCode::Char('r')) {
                                    b == a && r == (KeyOutcome {
                                        follow_up: Some(Event::RefreshJobsForServer),
                                        reload_servers: false,
                                    })
                                } else {
                                    b == a && r == no_outcome()
                                }
                            } else {
                                b == a && r == no_outcome()
                            }
                        } else {
                            if spec_selected_job(a) is Some {
                                spec_scroll_effect(a, b, code) && r == no_outcome()
                            } else {
                                b == a && r == no_outcome()
                            }
                        }
                    },
                }
            }
        }),
{
    let mut quit_pressed = false;
    match key_event.code {
        KeyCode::Esc => {
            quit_pressed = true;
        },
        KeyCode::Char(c) => {
            if c == 'q' {
                quit_pressed = true;
            } else if c == 'c' {
                if key_event.ctrl {
                    quit_pressed = true;
                }
            } else if '0' <= c && c <= '9' {
                let d = ((c as u32) - 48) as u8;
                app.set_active_pane(d);
            }
        },
        _ => {},
    }
    if quit_pressed {
        app.quit();
        return KeyOutcome { follow_up: None, reload_servers: false };
    }

    if app.active_pane == 1 {
        if is_next_key(key_event.code) {
            app.servers.select_next();
            return KeyOutcome { follow_up: Some(Event::RefreshJobsForServer), reload_servers: false };
        }
        if is_prev_key(key_event.code) {
            app.servers.select_previous();
            return KeyOutcome { follow_up: Some(Event::RefreshJobsForServer), reload_servers: false };
        }
        if key_event.code == (KeyCode::Char('r')) {
            return KeyOutcome { follow_up: None, reload_servers: true };
        }
    } else if app.active_pane == 2 {
        if app.get_current_server_jobs().is_some() {
            if is_next_key(key_event.code) {
                app.move_job_selection(true);
                return KeyOutcome {
                    follow_up: Some(Event::RefreshLogsForJob),
                    reload_servers: false,
                };
            }
            if is_prev_key(key_event.code) {
                app.move_job_selection(false);
                return KeyOutcome {
                    follow_up: Some(Event::RefreshLogsForJob),
                    reload_servers: false,
                };
            }
            if key_event.code == (KeyCode::Char('r')) {
                return KeyOutcome {
                    follow_up: Some(Event::RefreshJobsForServer),
                    reload_servers: false,
                };
            }
        }
    } else if app.active_pane == 3 {
        let job_selected = match app.get_current_server_jobs() {
            Some((stateful_jobs, _)) => stateful_jobs.job_state.is_some(),
            None => false,
        };
        proof {
            let m = jobs_cache_view(app.jobs@);
            match app.servers.server_state {
                Some(i) => {
                    crate::app::lemma_find_key_props(m, app.servers.servers@[i as int].0@);
                    match crate::app::spec_find_key(m, app.servers.servers@[i as int].0@) {
                        Some(j) => {
                            assert(m[j].selected == sel_view(app.jobs@[j].1.job_state));
                        },
                        None => {},
                    }
                },
                None => {},
            }
        }
        if job_selected {
            match key_event.code {
                KeyCode::Char(c) => {
                    if c == 'j' {
                        app.log_scroll_state.scroll_down();
                    } else if c == 'k' {
                        app.log_scroll_state.scroll_up();
                    } else if c == 'h' {
                        app.log_scroll_state.scroll_left();
                    } else if c == 'l' {
                        app.log_scroll_state.scroll_right();
                    } else if c == 'w' {
                        app.wrap_logs = !app.wrap_logs;
                    }
                },
                KeyCode::Down => app.log_scroll_state.scroll_down(),
                KeyCode::Up => app.log_scroll_state.scroll_up(),
                KeyCode::Left => app.log_scroll_state.scroll_left(),
                KeyCode::Right => app.log_scroll_state.scroll_right(),
                KeyCode::PageDown => app.log_scroll_state.scroll_page_down(),
                KeyCode::PageUp => app.log_scroll_state.scroll_page_up(),
                _ => {},
            }
        }
    }

    KeyOutcome { follow_up: None, reload_servers: false }
}

} // verus!
