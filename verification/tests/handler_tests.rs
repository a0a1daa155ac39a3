use jenkins_tui::app::App;
use jenkins_tui::event::{filter_terminal_event, Event, KeyCode, KeyEvent, TermEvent};
use jenkins_tui::handler::handle_key_events;
use jenkins_tui::jenkins::{BuildState, JenkinsResult};

const TWO_SERVERS: &str = "[serverA]\n\
url=http://a.example/\n\
user=alice\n\
password=pa\n\
[serverB]\n\
url=http://b.example/\n\
user=bob\n\
password=pb\n";

fn key(code: KeyCode) -> KeyEvent {
    KeyEvent { code, ctrl: false }
}

fn record(name: &str, number: u128) -> JenkinsResult {
    JenkinsResult {
        name: name.to_string(),
        build_number: number,
        build_state: BuildState::Success,
        updated: 0,
        link: "http://a.example/job/x/1/".to_string(),
        logs: String::new(),
    }
}

fn app_with_jobs() -> App {
    let mut app = App::new();
    app.refresh_servers(TWO_SERVERS).unwrap();
    app.servers.select_next();
    app.store_jobs(vec![record("a", 1), record("b", 2)]);
    app
}

#[test]
fn escape_q_and_control_c_quit() {
    for k in [
        key(KeyCode::Esc),
        key(KeyCode::Char('q')),
        KeyEvent { code: KeyCode::Char('c'), ctrl: true },
    ] {
        let mut app = App::new();
        let out = handle_key_events(k, &mut app);
        assert!(!app.running);
        assert_eq!(app.status, "Quitting");
        assert!(out.follow_up.is_none());
        assert!(!out.reload_servers);
    }
}

#[test]
fn plain_c_does_not_quit() {
    let mut app = App::new();
    handle_key_events(key(KeyCode::Char('c')), &mut app);
    assert!(app.running);
}

#[test]
fn digit_keys_switch_panes_and_bad_digits_are_rejected_with_a_message() {
    let mut app = App::new();
    handle_key_events(key(KeyCode::Char('2')), &mut app);
    assert_eq!(app.active_pane, 2);
    assert_eq!(app.status, "Setting active pane to 2");
    handle_key_events(key(KeyCode::Char('7')), &mut app);
    assert_eq!(app.active_pane, 2);
    assert_eq!(app.status, "7 is an invalid pane number");
    handle_key_events(key(KeyCode::Char('0')), &mut app);
    assert_eq!(app.active_pane, 2);
    assert_eq!(app.status, "0 is an invalid pane number");
}

#[test]
fn pane_one_j_and_down_move_the_server_selection_and_ask_for_a_refresh() {
    let mut app = App::new();
    app.refresh_servers(TWO_SERVERS).unwrap();
    let out = handle_key_events(key(KeyCode::Char('j')), &mut app);
    assert_eq!(app.servers.server_state, Some(0));
    assert_eq!(out.follow_up, Some(Event::RefreshJobsForServer));
    assert!(!out.reload_servers);
    let out = handle_key_events(key(KeyCode::Down), &mut app);
    assert_eq!(app.servers.server_state, Some(1));
    assert_eq!(out.follow_up, Some(Event::RefreshJobsForServer));
}

#[test]
fn pane_one_k_and_up_move_the_server_selection_backward() {
    let mut app = App::new();
    app.refresh_servers(TWO_SERVERS).unwrap();
    app.servers.select_next();
    app.servers.select_next();
    let out = handle_key_events(key(KeyCode::Char('k')), &mut app);
    assert_eq!(app.servers.server_state, Some(0));
    assert_eq!(out.follow_up, Some(Event::RefreshJobsForServer));
    let out = handle_key_events(key(KeyCode::Up), &mut app);
    assert_eq!(app.servers.server_state, Some(0));
    assert_eq!(out.follow_up, Some(Event::RefreshJobsForServer));
}

#[test]
fn pane_one_r_demands_an_immediate_server_reload() {
    let mut app = App::new();
    app.refresh_servers(TWO_SERVERS).unwrap();
    let out = handle_key_events(key(KeyCode::Char('r')), &mut app);
    assert!(out.reload_servers);
    assert!(out.follow_up.is_none());
}

#[test]
fn pane_two_moves_the_job_selection_and_asks_for_logs() {
    let mut app = app_with_jobs();
    app.set_active_pane(2);
    let out = handle_key_events(key(KeyCode::Char('j')), &mut app);
    assert_eq!(app.jobs[0].1.job_state, Some(0));
    assert_eq!(out.follow_up, Some(Event::RefreshLogsForJob));
    let out = handle_key_events(key(KeyCode::Down), &mut app);
    assert_eq!(app.jobs[0].1.job_state, Some(1));
    assert_eq!(out.follow_up, Some(Event::RefreshLogsForJob));
    let out = handle_key_events(key(KeyCode::Up), &mut app);
    assert_eq!(app.jobs[0].1.job_state, Some(0));
    assert_eq!(out.follow_up, Some(Event::RefreshLogsForJob));
}

#[test]
fn pane_two_r_asks_for_a_job_refresh() {
    let mut app = app_with_jobs();
    app.set_active_pane(2);
    let out = handle_key_events(key(KeyCode::Char('r')), &mut app);
    assert_eq!(out.follow_up, Some(Event::RefreshJobsForServer));
    assert!(!out.reload_servers);
}

#[test]
fn pane_two_without_a_cache_entry_does_nothing() {
    let mut app = App::new();
    app.refresh_servers(TWO_SERVERS).unwrap();
    app.servers.select_next();
    app.set_active_pane(2);
    let out = handle_key_events(key(KeyCode::Char('j')), &mut app);
    assert!(out.follow_up.is_none());
    assert!(app.jobs.is_empty());
}

#[test]
fn pane_three_scrolls_only_with_a_selected_job() {
    let mut app = app_with_jobs();
    app.move_job_selection(true);
    app.set_active_pane(3);
    handle_key_events(key(KeyCode::Char('j')), &mut app);
    assert_eq!(app.log_scroll_state.y, 1);
    handle_key_events(key(KeyCode::Down), &mut app);
    assert_eq!(app.log_scroll_state.y, 2);
    handle_key_events(key(KeyCode::Char('k')), &mut app);
    assert_eq!(app.log_scroll_state.y, 1);
    handle_key_events(key(KeyCode::Char('l')), &mut app);
    assert_eq!(app.log_scroll_state.x, 1);
    handle_key_events(key(KeyCode::Char('h')), &mut app);
    assert_eq!(app.log_scroll_state.x, 0);
    handle_key_events(key(KeyCode::Char('h')), &mut app);
    assert_eq!(app.log_scroll_state.x, 0);
}

#[test]
fn pane_three_pages_by_the_measured_page_height() {
    let mut app = app_with_jobs();
    app.move_job_selection(true);
    app.set_active_pane(3);
    app.log_scroll_state.set_page_height(10);
    handle_key_events(key(KeyCode::PageDown), &mut app);
    assert_eq!(app.log_scroll_state.y, 9);
    handle_key_events(key(KeyCode::PageUp), &mut app);
    assert_eq!(app.log_scroll_state.y, 0);
}

#[test]
fn pane_three_w_toggles_wrapping() {
    let mut app = app_with_jobs();
    app.move_job_selection(true);
    app.set_active_pane(3);
    handle_key_events(key(KeyCode::Char('w')), &mut app);
    assert!(app.wrap_logs);
    handle_key_events(key(KeyCode::Char('w')), &mut app);
    assert!(!app.wrap_logs);
}

#[test]
fn pane_three_without_a_selected_job_ignores_scroll_keys() {
    let mut app = app_with_jobs();
    app.set_active_pane(3);
    handle_key_events(key(KeyCode::Char('j')), &mut app);
    assert_eq!(app.log_scroll_state.y, 0);
    handle_key_events(key(KeyCode::Char('w')), &mut app);
    assert!(!app.wrap_logs);
}

#[test]
fn unbound_keys_are_no_ops() {
    let mut app = app_with_jobs();
    let out = handle_key_events(key(KeyCode::Char('z')), &mut app);
    assert!(out.follow_up.is_none());
    assert!(!out.reload_servers);
    assert!(app.running);
}

#[test]
fn key_presses_and_resizes_pass_the_event_filter() {
    let k = key(KeyCode::Char('x'));
    assert_eq!(
        filter_terminal_event(&TermEvent::Key(k, true)),
        Some(Event::Key(k))
    );
    assert_eq!(filter_terminal_event(&TermEvent::Key(k, false)), None);
    assert_eq!(
        filter_terminal_event(&TermEvent::Resize(80, 24)),
        Some(Event::Resize(80, 24))
    );
    assert_eq!(filter_terminal_event(&TermEvent::FocusGained), None);
    assert_eq!(filter_terminal_event(&TermEvent::FocusLost), None);
    assert_eq!(filter_terminal_event(&TermEvent::Mouse), None);
    assert_eq!(filter_terminal_event(&TermEvent::Paste), None);
}
