use jenkins_tui::jenkins::{parse_title, BuildState, JenkinsResult, JenkinsServer};
use jenkins_tui::text::{u128_to_string, usize_to_string, x_mask};

#[test]
fn title_with_stable_status_yields_success_record() {
    let r = parse_title("nightly-build #42 (stable, build took 3 min)").unwrap();
    assert_eq!(r.0, "nightly-build");
    assert_eq!(r.1, 42u128);
    assert_eq!(r.2, BuildState::Success);
}

#[test]
fn title_with_broken_status_yields_failure_record() {
    let r = parse_title("nightly-build #7 (broken)").unwrap();
    assert_eq!(r.0, "nightly-build");
    assert_eq!(r.1, 7u128);
    assert_eq!(r.2, BuildState::Failure);
}

#[test]
fn title_with_back_to_normal_yields_success_record() {
    let r = parse_title("api-tests #100 (back to normal)").unwrap();
    assert_eq!(r.0, "api-tests");
    assert_eq!(r.1, 100u128);
    assert_eq!(r.2, BuildState::Success);
}

#[test]
fn non_matching_title_yields_no_record() {
    assert!(parse_title("hello world").is_none());
    assert!(parse_title("").is_none());
    assert!(parse_title("job #12 (running)").is_none());
    assert!(parse_title("job #(stable)").is_none());
    assert!(parse_title("job # (stable)").is_none());
    assert!(parse_title("job 12 (stable)").is_none());
}

#[test]
fn status_word_is_matched_case_insensitively() {
    assert_eq!(parse_title("job #1 (Stable)").unwrap().2, BuildState::Success);
    assert_eq!(parse_title("job #2 (BROKEN)").unwrap().2, BuildState::Failure);
    assert_eq!(
        parse_title("job #3 (Back To Normal)").unwrap().2,
        BuildState::Success
    );
}

#[test]
fn name_is_matched_greedily_up_to_the_last_separator() {
    let r = parse_title("a #1 (stable) b #2 (broken)").unwrap();
    assert_eq!(r.0, "a #1 (stable) b");
    assert_eq!(r.1, 2u128);
    assert_eq!(r.2, BuildState::Failure);
}

#[test]
fn empty_name_is_allowed() {
    let r = parse_title(" #5 (stable)").unwrap();
    assert_eq!(r.0, "");
    assert_eq!(r.1, 5u128);
}

#[test]
fn build_number_too_large_for_u128_drops_the_record() {
    assert!(parse_title("job #111111111111111111111111111111111111111111 (stable)").is_none());
    // u128::MAX itself still fits
    let r = parse_title("job #340282366920938463463374607431768211455 (stable)").unwrap();
    assert_eq!(r.1, u128::MAX);
}

#[test]
fn build_state_from_str_maps_the_three_phrases() {
    assert_eq!(BuildState::from_str("stable"), BuildState::Success);
    assert_eq!(BuildState::from_str("back to normal"), BuildState::Success);
    assert_eq!(BuildState::from_str("BACK TO NORMAL"), BuildState::Success);
    assert_eq!(BuildState::from_str("Broken"), BuildState::Failure);
    assert_eq!(BuildState::from_str("anything else"), BuildState::Unknown);
    assert_eq!(BuildState::from_str(""), BuildState::Unknown);
}

#[test]
fn decimal_rendering_is_exact() {
    assert_eq!(u128_to_string(0), "0");
    assert_eq!(u128_to_string(7), "7");
    assert_eq!(u128_to_string(1234567890), "1234567890");
    assert_eq!(usize_to_string(42), "42");
}

#[test]
fn password_mask_repeats_one_x_per_character() {
    assert_eq!(x_mask(0), "");
    assert_eq!(x_mask(4), "xxxx");
}

#[test]
fn record_display_shows_name_and_number() {
    let r = JenkinsResult {
        name: "deploy".to_string(),
        build_number: 12,
        build_state: BuildState::Success,
        updated: 0,
        link: "http://host/job/deploy/12/".to_string(),
        logs: String::new(),
    };
    assert_eq!(r.display_string(), "deploy #12");
}

#[test]
fn server_display_masks_the_password() {
    let s = JenkinsServer::new(
        "http://host/".to_string(),
        "user".to_string(),
        "secret".to_string(),
    );
    assert_eq!(s.display_string(), "user:xxxxxx@http://host/");
}

#[test]
fn record_hydration_replaces_stored_logs() {
    let mut r = JenkinsResult {
        name: "a".to_string(),
        build_number: 1,
        build_state: BuildState::Failure,
        updated: 0,
        link: "http://h/".to_string(),
        logs: String::new(),
    };
    r.hydrate_logs("first text".to_string());
    assert_eq!(r.logs, "first text");
    r.hydrate_logs("second text".to_string());
    assert_eq!(r.logs, "second text");
}

#[test]
fn default_record_is_empty_failure_at_epoch() {
    let r = JenkinsResult::default();
    assert_eq!(r.name, "");
    assert_eq!(r.build_number, 0);
    assert_eq!(r.build_state, BuildState::Failure);
    assert_eq!(r.updated, 0);
    assert_eq!(r.link, "file:///dev/null");
    assert_eq!(r.logs, "");
}
