use jenkins_tui::feed::{jenkins_results_from_feed, record_of_entry, FeedEntry, FeedError};
use jenkins_tui::jenkins::BuildState;

fn feed_doc(entries: &str) -> String {
    let mut s = String::from(
        "<?xml version=\"1.0\" encoding=\"UTF-8\"?>\
         <feed xmlns=\"http://www.w3.org/2005/Atom\">\
         <title>builds</title>\
         <id>urn:feed</id>\
         <updated>2024-01-01T00:00:00Z</updated>",
    );
    s.push_str(entries);
    s.push_str("</feed>");
    s
}

fn entry_doc(title: &str, link: &str, updated: &str) -> String {
    format!(
        "<entry><title>{}</title><id>urn:{}</id><updated>{}</updated>\
         <link href=\"{}\"/></entry>",
        title, title, updated, link
    )
}

#[test]
fn matching_entry_becomes_a_record_and_non_matching_is_dropped() {
    let xml = feed_doc(&format!(
        "{}{}",
        entry_doc("job-a #3 (stable)", "http://host/job/a/3/", "2024-01-02T00:00:00Z"),
        entry_doc("not a build title", "http://host/other/", "2024-01-03T00:00:00Z"),
    ));
    let records = jenkins_results_from_feed(&xml).unwrap();
    assert_eq!(records.len(), 1);
    assert_eq!(records[0].name, "job-a");
    assert_eq!(records[0].build_number, 3);
    assert_eq!(records[0].build_state, BuildState::Success);
    assert_eq!(records[0].link, "http://host/job/a/3/");
    assert_eq!(records[0].logs, "");
}

#[test]
fn records_come_out_sorted_ascending_by_updated() {
    let xml = feed_doc(&format!(
        "{}{}{}",
        entry_doc("late #2 (broken)", "http://h/j/2/", "2024-03-01T00:00:00Z"),
        entry_doc("early #1 (stable)", "http://h/j/1/", "2024-01-01T00:00:00Z"),
        entry_doc("middle #5 (stable)", "http://h/j/5/", "2024-02-01T00:00:00Z"),
    ));
    let records = jenkins_results_from_feed(&xml).unwrap();
    let names: Vec<&str> = records.iter().map(|r| r.name.as_str()).collect();
    assert_eq!(names, vec!["early", "middle", "late"]);
    assert!(records[0].updated <= records[1].updated);
    assert!(records[1].updated <= records[2].updated);
}

#[test]
fn timestamps_carry_over_in_milliseconds() {
    let xml = feed_doc(&entry_doc(
        "job #1 (stable)",
        "http://h/j/1/",
        "1970-01-01T00:00:10Z",
    ));
    let records = jenkins_results_from_feed(&xml).unwrap();
    assert_eq!(records[0].updated, 10_000);
}

#[test]
fn malformed_document_is_an_error() {
    assert_eq!(
        jenkins_results_from_feed("this is not xml"),
        Err(FeedError::Malformed)
    );
    assert_eq!(
        jenkins_results_from_feed("<feed>truncated"),
        Err(FeedError::Malformed)
    );
}

#[test]
fn entry_without_any_link_is_dropped() {
    let e = FeedEntry {
        title: "job #1 (stable)".to_string(),
        links: Vec::new(),
        updated: 0,
    };
    assert!(record_of_entry(&e).is_none());
}

#[test]
fn entry_record_takes_the_first_link() {
    let e = FeedEntry {
        title: "job #1 (stable)".to_string(),
        links: vec!["http://h/first/".to_string(), "http://h/second/".to_string()],
        updated: 99,
    };
    let r = record_of_entry(&e).unwrap();
    assert_eq!(r.link, "http://h/first/");
    assert_eq!(r.updated, 99);
}
