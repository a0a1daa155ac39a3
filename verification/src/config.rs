//! Reading the server mapping out of configuration text: decoding INI
//! sections is the config library's work, behind a trusted wrapper;
//! selecting the fully-specified sections is verified.

use vstd::prelude::*;

use crate::jenkins::{spec_server_of_fields, JenkinsServer, ServerView};

verus! {

/// The configuration source could not be read or could not be decoded;
/// fatal for the caller (spec section 7).
#[derive(Debug, Clone, Copy, PartialEq, Eq, Structural)]
pub enum ConfigError {
    /// The source could not be read.
    Unreadable,
    /// The text is not well-formed INI.
    Malformed,
}

/// The sections' contents, in order: each section's name and its key/value
/// fields.
pub open spec fn sections_view(s: Seq<(String, Vec<(String, String)>)>) -> Seq<
    (Seq<char>, Seq<(Seq<char>, Seq<char>)>),
> {
    s.map_values(
        |p: (String, Vec<(String, String)>)|
            (p.0@, p.1@.map_values(|q: (String, String)| (q.0@, q.1@))),
    )
}

/// Section names are pairwise distinct.
pub open spec fn distinct_names(s: Seq<(Seq<char>, Seq<(Seq<char>, Seq<char>)>)>) -> bool {
    forall|i: int, j: int| 0 <= i < j < s.len() ==> s[i].0 != s[j].0
}

/// What decoding INI text yields: its sections with their key/value fields,
/// or nothing where the text is not well-formed INI.
pub uninterp spec fn ini_sections(text: Seq<char>) -> Option<
    Seq<(Seq<char>, Seq<(Seq<char>, Seq<char>)>)>,
>;

/// Relies on `serde_ini::from_str`, decoding into ordered maps keyed by
/// section name and, within a section, by field key: the sections come out
/// with distinct names, in ascending order of name, each with its fields;
/// the call errs exactly on text that is not well-formed INI. The result
/// depends on the text alone.
#[verifier::external_body]
fn parse_ini(text: &str) -> (r: Result<Vec<(String, Vec<(String, String)>)>, ConfigError>)
    ensures
        r matches Ok(v) ==> ini_sections(text@) == Some(sections_view(v@)),
        r matches Ok(v) ==> distinct_names(sections_view(v@)),
        r is Err ==> ini_sections(text@) is None,
{
    match serde_ini::from_str::<
        std::collections::BTreeMap<String, std::collections::BTreeMap<String, String>>,
    >(text) {
        Ok(m) => Ok(m.into_iter().map(|(k, v)| (k, v.into_iter().collect())).collect()),
        Err(_) => Err(ConfigError::Malformed),
    }
}

/// The server mapping a sequence of sections describes: each section that
/// holds `url`, `user` and `password` contributes one named server, in
/// section order; a section missing any of the three is left out.
pub open spec fn spec_servers_of_sections(s: Seq<(Seq<char>, Seq<(Seq<char>, Seq<char>)>)>) -> Seq<
    (Seq<char>, ServerView),
>
    decreases s.len(),
{
    if s.len() == 0 {
        Seq::<(Seq<char>, ServerView)>::empty()
    } else {
        let rest = spec_servers_of_sections(s.drop_last());
        match spec_server_of_fields(s.last().1) {
            None => rest,
            Some(sv) => rest.push((s.last().0, sv)),
        }
    }
}

/// The named servers' views, in order.
pub open spec fn servers_view(s: Seq<(String, JenkinsServer)>) -> Seq<(Seq<char>, ServerView)> {
    s.map_values(|p: (String, JenkinsServer)| (p.0@, p.1@))
}

/// Builds the server mapping out of decoded sections, keeping their order
/// and leaving out every section that misses `url`, `user` or `password`.
pub fn servers_from_sections(sections: Vec<(String, Vec<(String, String)>)>) -> (v: Vec<
    (String, JenkinsServer),
>)
    ensures
        servers_view(v@) == spec_servers_of_sections(sections_view(sections@)),
{
    let ghost sv = sections_view(sections@);
    let mut v: Vec<(String, JenkinsServer)> = Vec::new();
    proof {
        assert(sv.take(0) =~= Seq::<(Seq<char>, Seq<(Seq<char>, Seq<char>)>)>::empty());
        assert(servers_view(Seq::<(String, JenkinsServer)>::empty()) =~= Seq::<
            (Seq<char>, ServerView),
        >::empty());
    }
    let mut i: usize = 0;
    while i < sections.len()
        invariant
            0 <= i <= sections@.len(),
            sv == sections_view(sections@),
            servers_view(v@) == spec_servers_of_sections(sv.take(i as int)),
        decreases sections@.len() - i,
    {
        proof {
            assert(sv[i as int] == (sections@[i as int].0@, sections@[i as int].1@.map_values(
                |q: (String, String)| (q.0@, q.1@),
            )));
            assert(sv.take(i + 1 as int).drop_last() =~= sv.take(i as int));
            assert(sv.take(i + 1 as int).last() == sv[i as int]);
        }
        match JenkinsServer::try_from_fields(&sections[i].1) {
            None => {},
            Some(server) => {
                let name = sections[i].0.clone();
                v.push((name, server));
                proof {
                    assert(servers_view(v@) =~= servers_view(v@.drop_last()).push(
                        (v@.last().0@, v@.last().1@),
                    ));
                }
            },
        }
        i += 1;
    }
    proof {
        assert(sv.take(sections@.len() as int) =~= sv);
    }
    v
}

/// Decodes configuration text and builds the server mapping it describes:
/// one named server per section that holds `url`, `user` and `password`,
/// in section order (ascending by name); errs exactly where the text is
/// not well-formed INI.
pub fn parse_jenkins_config(text: &str) -> (r: Result<Vec<(String, JenkinsServer)>, ConfigError>)
    ensures
        r matches Ok(v) ==> (ini_sections(text@) matches Some(secs) && servers_view(v@)
            == spec_servers_of_sections(secs)),
        r is Err <==> ini_sections(text@) is None,
        r matches Err(e) ==> e == ConfigError::Malformed,
{
    match parse_ini(text) {
        Ok(sections) => Ok(servers_from_sections(sections)),
        Err(_) => Err(ConfigError::Malformed),
    }
}

} // verus!
