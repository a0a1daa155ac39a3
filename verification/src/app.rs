//! The authoritative application state: panes, selections, the name-keyed
//! job cache, the log scroll offset, and the status line. All mutation goes
//! through the operations here; none of them performs I/O.

use vstd::prelude::*;

use crate::config::{parse_jenkins_config, ConfigError};
use crate::jenkins::{
    records_view, spec_display_record, spec_display_server, JenkinsResult, JenkinsServer,
    RecordView, ServerView,
};
use crate::text::{dec_str, u128_to_string, usize_to_string};

verus! {

/// The two-dimensional scroll offset of the log pane, with the height of
/// one page as the last render measured it (one line until first measured).
#[derive(Debug, Clone, Copy, PartialEq, Eq, Structural)]
pub struct ScrollState {
    pub x: u16,
    pub y: u16,
    pub page_height: Option<u16>,
}

/// The page step: the measured page height, or one line before the first
/// measurement.
pub open spec fn spec_page_step(s: ScrollState) -> u16 {
    match s.page_height {
        None => 1u16,
        Some(h) => h,
    }
}

impl ScrollState {
    /// The origin, with no page height measured yet.
    pub fn new() -> (s: ScrollState)
        ensures
            s == (ScrollState { x: 0u16, y: 0u16, page_height: None::<u16> }),
    {
        ScrollState { x: 0, y: 0, page_height: None }
    }

    /// One row up, holding at the top.
    pub fn scroll_up(&mut self)
        ensures
            *final(self) == (ScrollState { y: old(self).y.saturating_sub(1), ..*old(self) }),
    {
        self.y = self.y.saturating_sub(1);
    }

    /// One row down, holding at the largest offset.
    pub fn scroll_down(&mut self)
        ensures
            *final(self) == (ScrollState { y: old(self).y.saturating_add(1), ..*old(self) }),
    {
        self.y = self.y.saturating_add(1);
    }

    /// One column left, holding at the left edge.
    pub fn scroll_left(&mut self)
        ensures
            *final(self) == (ScrollState { x: old(self).x.saturating_sub(1), ..*old(self) }),
    {
        self.x = self.x.saturating_sub(1);
    }

    /// One column right, holding at the largest offset.
    pub fn scroll_right(&mut self)
        ensures
            *final(self) == (ScrollState { x: old(self).x.saturating_add(1), ..*old(self) }),
    {
        self.x = self.x.saturating_add(1);
    }

    /// One page down less one row of overlap.
    pub fn scroll_page_down(&mut self)
        ensures
            *final(self) == (ScrollState {
                y: old(self).y.saturating_add(spec_page_step(*old(self))).saturating_sub(1),
                ..*old(self)
            }),
    {
        let step = match self.page_height {
            None => 1,
            Some(h) => h,
        };
        self.y = self.y.saturating_add(step).saturating_sub(1);
    }

    /// One page up less one row of overlap.
    pub fn scroll_page_up(&mut self)
        ensures
            *final(self) == (ScrollState {
                y: old(self).y.saturating_add(1).saturating_sub(spec_page_step(*old(self))),
                ..*old(self)
            }),
    {
        let step = match self.page_height {
            None => 1,
            Some(h) => h,
        };
        self.y = self.y.saturating_add(1).saturating_sub(step);
    }

    /// Records the page height the renderer measured.
    pub fn set_page_height(&mut self, h: u16)
        ensures
            *final(self) == (ScrollState { page_height: Some(h), ..*old(self) }),
    {
        self.page_height = Some(h);
    }
}

/// A selection as a mathematical value.
pub open spec fn sel_view(s: Option<usize>) -> Option<int> {
    match s {
        None => None,
        Some(i) => Some(i as int),
    }
}

/// Where moving the selection forward lands: on an empty list nowhere, from
/// no selection on the first entry, otherwise one entry later, holding at
/// the last.
pub open spec fn spec_move_next(sel: Option<int>, len: int) -> Option<int> {
    if len == 0 {
        None
    } else {
        match sel {
            None => Some(0),
            Some(i) => if i + 1 < len {
                Some(i + 1)
            } else {
                Some(i)
            },
        }
    }
}

/// Where moving the selection backward lands: on an empty list nowhere,
/// from no selection on the first entry, otherwise one entry earlier,
/// holding at the first.
pub open spec fn spec_move_previous(sel: Option<int>, len: int) -> Option<int> {
    if len == 0 {
        None
    } else {
        match sel {
            None => Some(0),
            Some(i) => if i > 0 {
                Some(i - 1)
            } else {
                Some(0)
            },
        }
    }
}

/// A selection move: forward or backward.
pub open spec fn spec_move(sel: Option<int>, len: int, forward: bool) -> Option<int> {
    if forward {
        spec_move_next(sel, len)
    } else {
        spec_move_previous(sel, len)
    }
}

/// Moving never selects outside the list, and on an empty list never
/// selects at all.
pub proof fn lemma_move_stays_in_bounds(sel: Option<int>, len: int, forward: bool)
    requires
        0 <= len,
        sel matches Some(i) ==> 0 <= i < len,
    ensures
        spec_move(sel, len, forward) matches Some(i) ==> 0 <= i < len,
        len == 0 ==> spec_move(sel, len, forward) is None,
{
}

/// The selection after a whole sequence of moves.
pub open spec fn spec_apply_moves(sel: Option<int>, len: int, moves: Seq<bool>) -> Option<int>
    decreases moves.len(),
{
    if moves.len() == 0 {
        sel
    } else {
        spec_apply_moves(spec_move(sel, len, moves.first()), len, moves.drop_first())
    }
}

/// Any sequence of moves keeps the selection inside the list, and on an
/// empty list leaves it unset.
pub proof fn lemma_moves_stay_in_bounds(sel: Option<int>, len: int, moves: Seq<bool>)
    requires
        0 <= len,
        sel matches Some(i) ==> 0 <= i < len,
    ensures
        spec_apply_moves(sel, len, moves) matches Some(i) ==> 0 <= i < len,
        len == 0 ==> spec_apply_moves(sel, len, moves) is None,
    decreases moves.len(),
{
    if moves.len() > 0 {
        lemma_move_stays_in_bounds(sel, len, moves.first());
        lemma_moves_stay_in_bounds(spec_move(sel, len, moves.first()), len, moves.drop_first());
    }
}

/// The ordered server mapping and which server is selected.
#[derive(Debug)]
pub struct StatefulServers {
    /// map of server name (ini table title) to connection info, in section order
    pub servers: Vec<(String, JenkinsServer)>,
    /// tracks the selected server
    pub server_state: Option<usize>,
}

impl StatefulServers {
    /// The selection points inside the list.
    pub open spec fn wf(&self) -> bool {
        self.server_state matches Some(i) ==> i < self.servers@.len()
    }

    /// Moves the server selection forward.
    pub fn select_next(&mut self)
        requires
            old(self).wf(),
        ensures
            final(self).wf(),
            final(self).servers == old(self).servers,
            sel_view(final(self).server_state) == spec_move_next(
                sel_view(old(self).server_state),
                old(self).servers@.len() as int,
            ),
    {
        self.server_state = move_selection(self.server_state, self.servers.len(), true);
    }

    /// Moves the server selection backward.
    pub fn select_previous(&mut self)
        requires
            old(self).wf(),
        ensures
            final(self).wf(),
            final(self).servers == old(self).servers,
            sel_view(final(self).server_state) == spec_move_previous(
                sel_view(old(self).server_state),
                old(self).servers@.len() as int,
            ),
    {
        self.server_state = move_selection(self.server_state, self.servers.len(), false);
    }
}

impl Default for StatefulServers {
    /// No servers, nothing selected.
    fn default() -> (s: StatefulServers)
        ensures
            s.servers@ == Seq::<(String, JenkinsServer)>::empty(),
            s.server_state is None,
    {
        StatefulServers { servers: Vec::new(), server_state: None }
    }
}

/// One server's cached job list and which job is selected.
#[derive(Debug, Clone)]
pub struct StatefulJobs {
    /// jobs on this server
    pub jobs: Vec<JenkinsResult>,
    /// tracks the selected job
    pub job_state: Option<usize>,
}

impl StatefulJobs {
    /// The selection points inside the list.
    pub open spec fn wf(&self) -> bool {
        self.job_state matches Some(i) ==> i < self.jobs@.len()
    }

    /// Moves the job selection forward.
    pub fn select_next(&mut self)
        requires
            old(self).wf(),
        ensures
            final(self).wf(),
            final(self).jobs == old(self).jobs,
            sel_view(final(self).job_state) == spec_move_next(
                sel_view(old(self).job_state),
                old(self).jobs@.len() as int,
            ),
    {
        self.job_state = move_selection(self.job_state, self.jobs.len(), true);
    }

    /// Moves the job selection backward.
    pub fn select_previous(&mut self)
        requires
            old(self).wf(),
        ensures
            final(self).wf(),
            final(self).jobs == old(self).jobs,
            sel_view(final(self).job_state) == spec_move_previous(
                sel_view(old(self).job_state),
                old(self).jobs@.len() as int,
            ),
    {
        self.job_state = move_selection(self.job_state, self.jobs.len(), false);
    }
}

impl Default for StatefulJobs {
    /// No jobs, nothing selected.
    fn default() -> (s: StatefulJobs)
        ensures
            s.jobs@ == Seq::<JenkinsResult>::empty(),
            s.job_state is None,
    {
        StatefulJobs { jobs: Vec::new(), job_state: None }
    }
}

/// The mathematical content of one job-cache entry: the server name keying
/// it, the cached records, and the job selection.
pub ghost struct CacheEntryView {
    pub name: Seq<char>,
    pub records: Seq<RecordView>,
    pub selected: Option<int>,
}

/// The job cache's contents, in order.
pub open spec fn jobs_cache_view(s: Seq<(String, StatefulJobs)>) -> Seq<CacheEntryView> {
    s.map_values(
        |p: (String, StatefulJobs)|
            CacheEntryView {
                name: p.0@,
                records: records_view(p.1.jobs@),
                selected: sel_view(p.1.job_state),
            },
    )
}

/// The first cache entry keyed by `name`, if any.
pub open spec fn spec_find_key(m: Seq<CacheEntryView>, name: Seq<char>) -> Option<int>
    decreases m.len(),
{
    if m.len() == 0 {
        None
    } else if m.first().name == name {
        Some(0)
    } else {
        match spec_find_key(m.drop_first(), name) {
            None => None,
            Some(k) => Some(k + 1),
        }
    }
}

pub proof fn lemma_find_key_at(m: Seq<CacheEntryView>, name: Seq<char>, i: int)
    requires
        0 <= i <= m.len(),
        forall|jj: int| 0 <= jj < i ==> m[jj].name != name,
    ensures
        i < m.len() && m[i].name == name ==> spec_find_key(m, name) == Some(i),
        i == m.len() && (forall|jj: int| 0 <= jj < m.len() ==> m[jj].name != name)
            ==> spec_find_key(m, name) is None,
    decreases i,
{
    if i > 0 {
        lemma_find_key_at(m.drop_first(), name, i - 1);
    }
}

pub proof fn lemma_find_key_props(m: Seq<CacheEntryView>, name: Seq<char>)
    ensures
        spec_find_key(m, name) matches Some(j) ==> 0 <= j < m.len() && m[j].name == name,
    decreases m.len(),
{
    if m.len() > 0 && m.first().name != name {
        lemma_find_key_props(m.drop_first(), name);
    }
}

/// Finds the cache entry keyed by `name`.
fn find_cache_index(jobs: &Vec<(String, StatefulJobs)>, name: &String) -> (r: Option<usize>)
    ensures
        sel_view(r) == spec_find_key(jobs_cache_view(jobs@), name@),
        r matches Some(j) ==> j < jobs@.len(),
{
    let ghost m = jobs_cache_view(jobs@);
    proof {
        assert(m.len() == jobs@.len());
    }
    let mut i: usize = 0;
    while i < jobs.len()
        invariant
            0 <= i <= jobs@.len(),
            m == jobs_cache_view(jobs@),
            m.len() == jobs@.len(),
            forall|jj: int| 0 <= jj < i ==> m[jj].name != name@,
        decreases jobs@.len() - i,
    {
        proof {
            assert(m[i as int].name == jobs@[i as int].0@);
        }
        if jobs[i].0 == *name {
            proof {
                lemma_find_key_at(m, name@, i as int);
            }
            return Some(i);
        }
        i += 1;
    }
    proof {
        lemma_find_key_at(m, name@, m.len() as int);
    }
    None
}

/// The status line after startup.
pub open spec fn msg_exit_hint() -> Seq<char> {
    "ESC, CTRL+C, or q to exit app"@
}

/// The status line naming a rejected pane number.
pub open spec fn msg_invalid_pane(n: nat) -> Seq<char> {
    dec_str(n) + " is an invalid pane number"@
}

/// The status line naming the pane switched to.
pub open spec fn msg_setting_pane(n: nat) -> Seq<char> {
    "Setting active pane to "@ + dec_str(n)
}

/// The status line while the configuration is read.
pub open spec fn msg_reading_config() -> Seq<char> {
    "Reading JJB config file for servers"@
}

/// The status line after a server reload.
pub open spec fn msg_found_servers(n: nat) -> Seq<char> {
    "Found "@ + dec_str(n) + " servers"@
}

/// The status line after a job refresh.
pub open spec fn msg_fetched_jobs(n: nat, server: ServerView) -> Seq<char> {
    "Fetched "@ + dec_str(n) + " job results from "@ + spec_display_server(server)
}

/// The status line after a log hydration.
pub open spec fn msg_fetched_logs(label: Seq<char>) -> Seq<char> {
    "Fetched logs for "@ + label
}

/// The status line on the way out.
pub open spec fn msg_quitting() -> Seq<char> {
    "Quitting"@
}

/// The application state.
#[derive(Debug)]
pub struct App {
    /// whether the app keeps running (cleared to exit)
    pub running: bool,
    /// the status message on display
    pub status: String,
    /// the active pane, 1 through 3
    pub active_pane: u8,
    /// the server mapping and server selection
    pub servers: StatefulServers,
    /// job cache: one entry per refreshed server, keyed by server name
    pub jobs: Vec<(String, StatefulJobs)>,
    /// the log pane's scroll offset
    pub log_scroll_state: ScrollState,
    /// whether log lines wrap
    pub wrap_logs: bool,
}

/// The fields the status line leaves alone: everything else.
pub open spec fn same_core(a: App, b: App) -> bool {
    &&& b.running == a.running
    &&& b.active_pane == a.active_pane
    &&& b.servers.servers == a.servers.servers
    &&& b.servers.server_state == a.servers.server_state
    &&& b.jobs == a.jobs
    &&& b.log_scroll_state == a.log_scroll_state
    &&& b.wrap_logs == a.wrap_logs
}

/// The startup state.
pub open spec fn spec_is_init(a: App) -> bool {
    &&& a.running == true
    &&& a.status@ == msg_exit_hint()
    &&& a.active_pane == 1
    &&& a.servers.servers@ =~= Seq::<(String, JenkinsServer)>::empty()
    &&& a.servers.server_state is None
    &&& a.jobs@ =~= Seq::<(String, StatefulJobs)>::empty()
    &&& a.log_scroll_state == (ScrollState { x: 0u16, y: 0u16, page_height: None::<u16> })
    &&& a.wrap_logs == false
}

/// The pane after one switch request: the requested pane if it is 1, 2 or
/// 3, the old one otherwise.
pub open spec fn spec_pane_after(p: u8, n: u8) -> u8 {
    if 1 <= n <= 3 {
        n
    } else {
        p
    }
}

/// The pane after a whole sequence of switch requests.
pub open spec fn spec_panes_fold(p: u8, keys: Seq<u8>) -> u8
    decreases keys.len(),
{
    if keys.len() == 0 {
        p
    } else {
        spec_panes_fold(spec_pane_after(p, keys.first()), keys.drop_first())
    }
}

/// For any sequence of pane-switch requests, the active pane stays in
/// {1, 2, 3}: a request outside that set leaves it unchanged.
pub proof fn lemma_pane_switches_stay_valid(p: u8, keys: Seq<u8>)
    requires
        1 <= p <= 3,
    ensures
        1 <= spec_panes_fold(p, keys) <= 3,
    decreases keys.len(),
{
    if keys.len() > 0 {
        lemma_pane_switches_stay_valid(spec_pane_after(p, keys.first()), keys.drop_first());
    }
}

/// The cache entry the selected server owns, if a server is selected and
/// has one.
pub open spec fn spec_selected_cache_index(a: App) -> Option<int> {
    match sel_view(a.servers.server_state) {
        None => None,
        Some(i) => if 0 <= i < a.servers.servers@.len() {
            spec_find_key(jobs_cache_view(a.jobs@), a.servers.servers@[i].0@)
        } else {
            None
        },
    }
}

/// The selected job's place, if a server is selected, has a cache entry,
/// and a job is selected in it: the cache index and the job index.
pub open spec fn spec_selected_job(a: App) -> Option<(int, int)> {
    match spec_selected_cache_index(a) {
        None => None,
        Some(j) => match jobs_cache_view(a.jobs@)[j].selected {
            None => None,
            Some(k) => Some((j, k)),
        },
    }
}

/// After a server reload nothing is selected, so neither the current-jobs
/// lookup nor the selected-job lookup can reach a stale cache entry.
pub proof fn lemma_reload_clears_reads(a: App)
    requires
        a.servers.server_state is None,
    ensures
        spec_selected_cache_index(a) is None,
        spec_selected_job(a) is None,
{
}

/// The job cache after fresh records arrive for the server named `name`:
/// that server's entry replaced wholly (or created), its job selection
/// cleared; every other entry untouched.
pub open spec fn spec_store_jobs(
    m: Seq<CacheEntryView>,
    name: Seq<char>,
    recs: Seq<RecordView>,
) -> Seq<CacheEntryView> {
    match spec_find_key(m, name) {
        None => m.push(CacheEntryView { name, records: recs, selected: None }),
        Some(j) => m.update(j, CacheEntryView { name, records: recs, selected: None }),
    }
}

/// Hydrating the same record twice keeps only the second text: each
/// hydration replaces the stored text, it never extends it.
pub proof fn lemma_hydrate_twice_replaces(s: Seq<RecordView>, k: int, t1: Seq<char>, t2: Seq<char>)
    requires
        0 <= k < s.len(),
    ensures
        ({
            let once = s.update(k, (RecordView { logs: t1, ..s[k] }));
            let twice = once.update(k, (RecordView { logs: t2, ..once[k] }));
            &&& twice == s.update(k, (RecordView { logs: t2, ..s[k] }))
            &&& twice[k].logs == t2
        }),
{
    let once = s.update(k, (RecordView { logs: t1, ..s[k] }));
    let twice = once.update(k, (RecordView { logs: t2, ..once[k] }));
    assert(twice =~= s.update(k, (RecordView { logs: t2, ..s[k] })));
}

/// Hydrating two different records leaves each holding its own text, and
/// every other record untouched.
pub proof fn lemma_hydrate_independent(
    s: Seq<RecordView>,
    k1: int,
    k2: int,
    t1: Seq<char>,
    t2: Seq<char>,
)
    requires
        0 <= k1 < s.len(),
        0 <= k2 < s.len(),
        k1 != k2,
    ensures
        ({
            let both = s.update(k1, (RecordView { logs: t1, ..s[k1] })).update(
                k2,
                (RecordView { logs: t2, ..s[k2] }),
            );
            &&& both[k1].logs == t1
            &&& both[k2].logs == t2
            &&& forall|i: int| 0 <= i < s.len() && i != k1 && i != k2 ==> both[i] == s[i]
        }),
{
}

impl Default for App {
    /// The startup state.
    fn default() -> (a: App)
        ensures
            a.wf(),
            spec_is_init(a),
    {
        App::new()
    }
}

impl App {
    /// Everything the operations preserve: the pane is 1, 2 or 3, and every
    /// selection points inside its list.
    pub open spec fn wf(&self) -> bool {
        &&& 1 <= self.active_pane <= 3
    &&& self.servers.wf()
    &&& forall|j: int| 0 <= j < self.jobs@.len() ==> (#[trigger] self.jobs@[j]).1.wf()
    }

    /// The startup state: running, the exit hint on the status line, pane 1,
    /// no servers, an empty job cache, the scroll origin, wrapping off.
    pub fn new() -> (a: App)
        ensures
            a.wf(),
            spec_is_init(a),
    {
        App {
            running: true,
            status: "ESC, CTRL+C, or q to exit app".to_owned(),
            active_pane: 1,
            servers: StatefulServers { servers: Vec::new(), server_state: None },
            jobs: Vec::new(),
            log_scroll_state: ScrollState::new(),
            wrap_logs: false,
        }
    }

    /// Overwrites the status line; within one processing turn the last
    /// writer wins.
    pub fn set_status(&mut self, status: &str)
        ensures
            final(self).status@ == status@,
            same_core(*old(self), *final(self)),
    {
        self.status = status.to_owned();
    }

    /// Switches to pane 1, 2 or 3; any other number leaves the pane
    /// unchanged and puts a message naming the rejected value on the
    /// status line.
    pub fn set_active_pane(&mut self, active_pane: u8)
        ensures
            final(self).active_pane == spec_pane_after(old(self).active_pane, active_pane),
            1 <= active_pane <= 3 ==> final(self).status@ == msg_setting_pane(active_pane as nat),
            !(1 <= active_pane <= 3) ==> final(self).status@ == msg_invalid_pane(
                active_pane as nat,
            ),
            final(self).running == old(self).running,
            final(self).servers.servers == old(self).servers.servers,
            final(self).servers.server_state == old(self).servers.server_state,
            final(self).jobs == old(self).jobs,
            final(self).log_scroll_state == old(self).log_scroll_state,
            final(self).wrap_logs == old(self).wrap_logs,
    {
        if !(1 <= active_pane && active_pane <= 3) {
            let mut s = u128_to_string(active_pane as u128);
            s.append(" is an invalid pane number");
            self.status = s;
            return ;
        }
        let mut s = "Setting active pane to ".to_owned();
        let num = u128_to_string(active_pane as u128);
        s.append(num.as_str());
        self.status = s;
        self.active_pane = active_pane;
    }

    /// Stops the main loop.
    pub fn quit(&mut self)
        ensures
            final(self).running == false,
            final(self).status@ == msg_quitting(),
            final(self).active_pane == old(self).active_pane,
            final(self).servers.servers == old(self).servers.servers,
            final(self).servers.server_state == old(self).servers.server_state,
            final(self).jobs == old(self).jobs,
            final(self).log_scroll_state == old(self).log_scroll_state,
            final(self).wrap_logs == old(self).wrap_logs,
    {
        self.set_status("Quitting");
        self.running = false;
    }

    /// A periodic tick: nothing to do.
    pub fn tick(&self) {
    }
}

impl App {
    /// Replaces the server mapping wholly with what the configuration text
    /// describes, clears the server selection, and invalidates the whole
    /// job cache, so no stale entry can be read against the new mapping.
    /// Errs, with the state otherwise untouched, exactly where the text is
    /// not well-formed INI.
    pub fn refresh_servers(&mut self, config_text: &str) -> (r: Result<(), ConfigError>)
        requires
            old(self).wf(),
        ensures
            final(self).wf(),
            r is Ok <==> crate::config::ini_sections(config_text@) is Some,
            r matches Ok(u) ==> {
                &&& crate::config::ini_sections(config_text@) matches Some(secs)
                &&& crate::config::servers_view(final(self).servers.servers@)
                    == crate::config::spec_servers_of_sections(secs)
                &&& final(self).servers.server_state is None
                &&& final(self).jobs@ =~= Seq::<(String, StatefulJobs)>::empty()
                &&& final(self).status@ == msg_found_servers(
                    crate::config::spec_servers_of_sections(secs).len(),
                )
                &&& final(self).running == old(self).running
                &&& final(self).active_pane == old(self).active_pane
                &&& final(self).log_scroll_state == old(self).log_scroll_state
                &&& final(self).wrap_logs == old(self).wrap_logs
            },
            r matches Err(e) ==> {
                &&& e == ConfigError::Malformed
                &&& final(self).status@ == msg_reading_config()
                &&& same_core(*old(self), *final(self))
            },
    {
        self.set_status("Reading JJB config file for servers");
        match parse_jenkins_config(config_text) {
            Ok(v) => {
                let n = v.len();
                proof {
                    assert(crate::config::servers_view(v@).len() == v@.len());
                }
                self.servers.servers = v;
                self.servers.server_state = None;
                self.jobs = Vec::new();
                let mut s = "Found ".to_owned();
                let num = usize_to_string(n);
                s.append(num.as_str());
                s.append(" servers");
                self.status = s;
                Ok(())
            },
            Err(e) => Err(e),
        }
    }

    /// The selected server's cached jobs and its descriptor: nothing if no
    /// server is selected, or the selected server has no cache entry yet.
    pub fn get_current_server_jobs(&self) -> (r: Option<(&StatefulJobs, &JenkinsServer)>)
        requires
            self.wf(),
        ensures
            match spec_selected_cache_index(*self) {
                None => r is None,
                Some(j) => {
                    &&& r matches Some(p)
                    &&& *p.0 == self.jobs@[j].1
                    &&& self.servers.server_state matches Some(i) && *p.1
                        == self.servers.servers@[i as int].1
                },
            },
    {
        let i = match self.servers.server_state {
            None => {
                return None;
            },
            Some(i) => i,
        };
        proof {
            lemma_find_key_props(jobs_cache_view(self.jobs@), self.servers.servers@[i as int].0@);
        }
        match find_cache_index(&self.jobs, &self.servers.servers[i].0) {
            None => None,
            Some(j) => Some((&self.jobs[j].1, &self.servers.servers[i].1)),
        }
    }

    /// Stores freshly fetched job records for the selected server: its
    /// cache entry is replaced wholly (or created), its job selection is
    /// cleared, and the status line reports the count and the server. With
    /// no server selected nothing changes.
    pub fn store_jobs(&mut self, fetched: Vec<JenkinsResult>)
        requires
            old(self).wf(),
        ensures
            final(self).wf(),
            old(self).servers.server_state is None ==> *final(self) == *old(self),
            old(self).servers.server_state matches Some(i) ==> {
                &&& jobs_cache_view(final(self).jobs@) == spec_store_jobs(
                    jobs_cache_view(old(self).jobs@),
                    old(self).servers.servers@[i as int].0@,
                    records_view(fetched@),
                )
                &&& final(self).status@ == msg_fetched_jobs(
                    fetched@.len(),
                    old(self).servers.servers@[i as int].1@,
                )
                &&& final(self).running == old(self).running
                &&& final(self).active_pane == old(self).active_pane
                &&& final(self).servers.servers == old(self).servers.servers
                &&& final(self).servers.server_state == old(self).servers.server_state
                &&& final(self).log_scroll_state == old(self).log_scroll_state
                &&& final(self).wrap_logs == old(self).wrap_logs
            },
    {
        let i = match self.servers.server_state {
            None => {
                return ;
            },
            Some(i) => i,
        };
        let ghost m = jobs_cache_view(self.jobs@);
        let count = fetched.len();
        let label = self.servers.servers[i].1.display_string();
        let name = self.servers.servers[i].0.clone();
        proof {
            lemma_find_key_props(m, name@);
        }
        match find_cache_index(&self.jobs, &name) {
            Some(j) => {
                self.jobs[j].1 = StatefulJobs { jobs: fetched, job_state: None };
                proof {
                    assert(jobs_cache_view(self.jobs@) =~= m.update(
                        j as int,
                        CacheEntryView {
                            name: name@,
                            records: records_view(self.jobs@[j as int].1.jobs@),
                            selected: None,
                        },
                    ));
                }
            },
            None => {
                self.jobs.push((name, StatefulJobs { jobs: fetched, job_state: None }));
                proof {
                    assert(jobs_cache_view(self.jobs@) =~= m.push(
                        CacheEntryView {
                            name: self.jobs@.last().0@,
                            records: records_view(self.jobs@.last().1.jobs@),
                            selected: None,
                        },
                    ));
                }
            },
        }
        let mut s = "Fetched ".to_owned();
        let num = usize_to_string(count);
        s.append(num.as_str());
        s.append(" job results from ");
        s.append(label.as_str());
        self.status = s;
    }

    /// Moves the job selection of the selected server's cache entry one
    /// step. With no server selected, or no cache entry for it, nothing
    /// changes.
    pub fn move_job_selection(&mut self, forward: bool)
        requires
            old(self).wf(),
        ensures
            final(self).wf(),
            match spec_selected_cache_index(*old(self)) {
                None => *final(self) == *old(self),
                Some(j) => {
                    let e = jobs_cache_view(old(self).jobs@)[j];
                    &&& jobs_cache_view(final(self).jobs@) == jobs_cache_view(
                        old(self).jobs@,
                    ).update(
                        j,
                        CacheEntryView {
                            selected: spec_move(e.selected, e.records.len() as int, forward),
                            ..e
                        },
                    )
                    &&& final(self).running == old(self).running
                    &&& final(self).status == old(self).status
                    &&& final(self).active_pane == old(self).active_pane
                    &&& final(self).servers.servers == old(self).servers.servers
                    &&& final(self).servers.server_state == old(self).servers.server_state
                    &&& final(self).log_scroll_state == old(self).log_scroll_state
                    &&& final(self).wrap_logs == old(self).wrap_logs
                },
            },
    {
        let i = match self.servers.server_state {
            None => {
                return ;
            },
            Some(i) => i,
        };
        let ghost m = jobs_cache_view(self.jobs@);
        proof {
            lemma_find_key_props(m, self.servers.servers@[i as int].0@);
        }
        let j = match find_cache_index(&self.jobs, &self.servers.servers[i].0) {
            None => {
                return ;
            },
            Some(j) => j,
        };
        assert(self.jobs@[j as int].1.wf());
        if forward {
            self.jobs[j].1.select_next();
        } else {
            self.jobs[j].1.select_previous();
        }
        proof {
            assert(jobs_cache_view(self.jobs@) =~= m.update(
                j as int,
                CacheEntryView {
                    name: m[j as int].name,
                    records: m[j as int].records,
                    selected: sel_view(self.jobs@[j as int].1.job_state),
                },
            ));
        }
    }

    /// Stores freshly fetched console text in the selected job's record,
    /// replacing whatever text an earlier hydration left there, and reports
    /// the job on the status line. With no job selected only the status
    /// line changes, reporting no job.
    pub fn store_logs(&mut self, text: String)
        requires
            old(self).wf(),
        ensures
            final(self).wf(),
            match spec_selected_job(*old(self)) {
                None => {
                    &&& same_core(*old(self), *final(self))
                    &&& final(self).status@ == msg_fetched_logs(Seq::<char>::empty())
                },
                Some(jk) => {
                    let e = jobs_cache_view(old(self).jobs@)[jk.0];
                    let hydrated = (RecordView { logs: text@, ..e.records[jk.1] });
                    &&& jobs_cache_view(final(self).jobs@) == jobs_cache_view(
                        old(self).jobs@,
                    ).update(
                        jk.0,
                        CacheEntryView { records: e.records.update(jk.1, hydrated), ..e },
                    )
                    &&& final(self).status@ == msg_fetched_logs(spec_display_record(hydrated))
                    &&& final(self).running == old(self).running
                    &&& final(self).active_pane == old(self).active_pane
                    &&& final(self).servers.servers == old(self).servers.servers
                    &&& final(self).servers.server_state == old(self).servers.server_state
                    &&& final(self).log_scroll_state == old(self).log_scroll_state
                    &&& final(self).wrap_logs == old(self).wrap_logs
                },
            },
    {
        let ghost m = jobs_cache_view(self.jobs@);
        let ghost t = text@;
        let mut label = String::new();
        if let Some(i) = self.servers.server_state {
            proof {
                lemma_find_key_props(m, self.servers.servers@[i as int].0@);
            }
            if let Some(j) = find_cache_index(&self.jobs, &self.servers.servers[i].0) {
                assert(self.jobs@[j as int].1.wf());
                if let Some(k) = self.jobs[j].1.job_state {
                    self.jobs[j].1.jobs[k].hydrate_logs(text);
                    label = self.jobs[j].1.jobs[k].display_string();
                    proof {
                        let e = m[j as int];
                        assert(records_view(self.jobs@[j as int].1.jobs@) =~= e.records.update(
                            k as int,
                            (RecordView { logs: t, ..e.records[k as int] }),
                        ));
                        assert(jobs_cache_view(self.jobs@) =~= m.update(
                            j as int,
                            CacheEntryView {
                                records: records_view(self.jobs@[j as int].1.jobs@),
                                ..e
                            },
                        ));
                    }
                }
            }
        }
        let mut s = "Fetched logs for ".to_owned();
        s.append(label.as_str());
        self.status = s;
    }
}

/// Moves a selection one step through a list of `len` entries.
fn move_selection(sel: Option<usize>, len: usize, forward: bool) -> (r: Option<usize>)
    requires
        sel matches Some(i) ==> i < len,
    ensures
        sel_view(r) == spec_move(sel_view(sel), len as int, forward),
        r matches Some(i) ==> i < len,
{
    if len == 0 {
        return None;
    }
    match sel {
        None => Some(0),
        Some(i) => {
            if forward {
                if i + 1 < len {
                    Some(i + 1)
                } else {
                    Some(i)
                }
            } else {
                if i > 0 {
                    Some(i - 1)
                } else {
                    Some(0)
                }
            }
        },
    }
}

} // verus!
