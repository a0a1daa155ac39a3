//! The build-record extraction pipeline: an Atom feed document in, an
//! ordered sequence of build records out. Decoding the document is the
//! feed library's work, behind a trusted wrapper; everything after the
//! decoded entries is verified.

use vstd::prelude::*;

use crate::jenkins::{
    insert_sorted, lemma_sorted_insert_sorted, parse_title, records_view, sorted_by_updated,
    sorted_insert, spec_parse_title, JenkinsResult, RecordView,
};

verus! {

/// One decoded feed entry: its title, the addresses of its links in order,
/// and its updated timestamp in milliseconds since the Unix epoch.
#[derive(Debug, Clone, PartialEq, Eq)]
pub struct FeedEntry {
    pub title: String,
    pub links: Vec<String>,
    pub updated: i64,
}

/// The entries' contents, in order.
pub open spec fn entries_view(s: Seq<FeedEntry>) -> Seq<(Seq<char>, Seq<Seq<char>>, int)> {
    s.map_values(|e: FeedEntry| (e.title@, e.links.deep_view(), e.updated as int))
}

/// A feed document that could not be decoded.
#[derive(Debug, Clone, Copy, PartialEq, Eq, Structural)]
pub enum FeedError {
    Malformed,
}

/// What decoding an Atom document yields: the entries' titles, link
/// addresses and updated timestamps in document order, or nothing where
/// the document is not a well-formed feed.
pub uninterp spec fn atom_entries(xml: Seq<char>) -> Option<Seq<(Seq<char>, Seq<Seq<char>>, int)>>;

/// Relies on `atom_syndication::Feed::from_str` (and `chrono`'s
/// `timestamp_millis` on each entry's `updated` field): decodes an Atom
/// document into its entries, in document order; errs exactly on documents
/// that are not well-formed feeds. The result depends on the text alone.
#[verifier::external_body]
fn parse_feed(xml: &str) -> (r: Result<Vec<FeedEntry>, FeedError>)
    ensures
        r matches Ok(v) ==> atom_entries(xml@) == Some(entries_view(v@)),
        r is Err ==> atom_entries(xml@) is None,
{
    match <atom_syndication::Feed as std::str::FromStr>::from_str(xml) {
        Ok(feed) => Ok(
            feed.entries.into_iter().map(
                |e| FeedEntry {
                    title: e.title.value,
                    links: e.links.into_iter().map(|l| l.href).collect(),
                    updated: e.updated.timestamp_millis(),
                },
            ).collect(),
        ),
        Err(_) => Err(FeedError::Malformed),
    }
}

/// The record one entry yields: its title's name, build number and build
/// state, the entry's timestamp, its first link, and empty logs; nothing
/// where the title does not match the pattern, the build number does not
/// fit in a `u128`, or the entry has no link.
pub open spec fn spec_entry_record(e: (Seq<char>, Seq<Seq<char>>, int)) -> Option<RecordView> {
    match spec_parse_title(e.0) {
        None => None,
        Some(p) => {
            if p.1 > u128::MAX as nat || e.1.len() == 0 {
                None
            } else {
                Some(
                    RecordView {
                        name: p.0,
                        build_number: p.1,
                        build_state: p.2,
                        updated: e.2,
                        link: e.1[0],
                        logs: Seq::<char>::empty(),
                    },
                )
            }
        },
    }
}

/// Extracts the build record one feed entry describes, if it describes one.
pub fn record_of_entry(e: &FeedEntry) -> (r: Option<JenkinsResult>)
    ensures
        match spec_entry_record((e.title@, e.links.deep_view(), e.updated as int)) {
            Some(rv) => r matches Some(x) && x@ == rv,
            None => r is None,
        },
{
    let parsed = parse_title(e.title.as_str());
    match parsed {
        None => None,
        Some((name, build_number, build_state)) => {
            if e.links.len() == 0 {
                return None;
            }
            let link = e.links[0].clone();
            proof {
                assert(e.links.deep_view()[0] == e.links@[0]@);
            }
            Some(
                JenkinsResult {
                    name,
                    build_number,
                    build_state,
                    updated: e.updated,
                    link,
                    logs: String::new(),
                },
            )
        },
    }
}

/// The records of a sequence of entries, kept sorted ascending by `updated`
/// as each entry's record is inserted; entries that yield no record leave
/// no trace.
pub open spec fn spec_results_of_entries(es: Seq<(Seq<char>, Seq<Seq<char>>, int)>) -> Seq<
    RecordView,
>
    decreases es.len(),
{
    if es.len() == 0 {
        Seq::<RecordView>::empty()
    } else {
        let rest = spec_results_of_entries(es.drop_last());
        match spec_entry_record(es.last()) {
            None => rest,
            Some(r) => sorted_insert(rest, r),
        }
    }
}

pub proof fn lemma_results_sorted(es: Seq<(Seq<char>, Seq<Seq<char>>, int)>)
    ensures
        sorted_by_updated(spec_results_of_entries(es)),
    decreases es.len(),
{
    if es.len() > 0 {
        lemma_results_sorted(es.drop_last());
        match spec_entry_record(es.last()) {
            None => {},
            Some(r) => {
                lemma_sorted_insert_sorted(spec_results_of_entries(es.drop_last()), r);
            },
        }
    }
}

/// Maps the decoded entries through the title pattern and gathers the
/// records they yield, sorted ascending by `updated`.
pub fn results_from_entries(entries: &Vec<FeedEntry>) -> (v: Vec<JenkinsResult>)
    ensures
        records_view(v@) == spec_results_of_entries(entries_view(entries@)),
        sorted_by_updated(records_view(v@)),
{
    let ghost ev = entries_view(entries@);
    let mut v: Vec<JenkinsResult> = Vec::new();
    proof {
        assert(ev.take(0) =~= Seq::<(Seq<char>, Seq<Seq<char>>, int)>::empty());
        assert(records_view(Seq::<JenkinsResult>::empty()) =~= Seq::<RecordView>::empty());
    }
    let mut i: usize = 0;
    while i < entries.len()
        invariant
            0 <= i <= entries@.len(),
            ev == entries_view(entries@),
            records_view(v@) == spec_results_of_entries(ev.take(i as int)),
        decreases entries@.len() - i,
    {
        proof {
            assert(ev[i as int] == (entries@[i as int].title@, entries@[i as int].links.deep_view(),
                entries@[i as int].updated as int));
            assert(ev.take(i + 1 as int).drop_last() =~= ev.take(i as int));
            assert(ev.take(i + 1 as int).last() == ev[i as int]);
        }
        match record_of_entry(&entries[i]) {
            None => {},
            Some(r) => {
                insert_sorted(&mut v, r);
            },
        }
        i += 1;
    }
    proof {
        assert(ev.take(entries@.len() as int) =~= ev);
        lemma_results_sorted(ev);
    }
    v
}

/// Decodes a feed document and extracts its build records, sorted ascending
/// by `updated`; errs exactly where the document is not a well-formed feed.
pub fn jenkins_results_from_feed(xml: &str) -> (r: Result<Vec<JenkinsResult>, FeedError>)
    ensures
        r matches Ok(v) ==> (atom_entries(xml@) matches Some(es) && records_view(v@)
            == spec_results_of_entries(es) && sorted_by_updated(records_view(v@))),
        r is Err <==> atom_entries(xml@) is None,
{
    match parse_feed(xml) {
        Ok(entries) => Ok(results_from_entries(&entries)),
        Err(e) => Err(e),
    }
}

} // verus!
