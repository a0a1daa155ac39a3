//! Build records and the extraction of one record from a feed entry's title.
//!
//! A title matches the pattern `<name> #<build_number> (<status-phrase>...`
//! where the status phrase is one of `stable`, `broken`, `back to normal`,
//! compared case-insensitively. The name is chosen greedily: the separator
//! ` #` taken is the last one whose remainder completes the pattern.

use vstd::prelude::*;

use crate::text::{
    ci_equal, ci_equal_str, ci_match_at, ci_matches_at, dec_str, str_chars, u128_to_string,
};

verus! {

/// The state of one build.
#[derive(Debug, Clone, Copy, PartialEq, Eq, Structural)]
pub enum BuildState {
    Success,
    Failure,
    Unknown,
}

/// The build state named by a status phrase: `stable` and `back to normal`
/// mean success, `broken` means failure, anything else is unknown.
pub open spec fn spec_state_of_phrase(s: Seq<char>) -> BuildState {
    if ci_equal(s, "stable"@) || ci_equal(s, "back to normal"@) {
        BuildState::Success
    } else if ci_equal(s, "broken"@) {
        BuildState::Failure
    } else {
        BuildState::Unknown
    }
}

impl BuildState {
    /// Reads a status phrase, case-insensitively.
    pub fn from_str(s: &str) -> (r: BuildState)
        ensures
            r == spec_state_of_phrase(s@),
    {
        let chars = str_chars(s);
        if ci_equal_str(&chars, "stable") || ci_equal_str(&chars, "back to normal") {
            BuildState::Success
        } else if ci_equal_str(&chars, "broken") {
            BuildState::Failure
        } else {
            BuildState::Unknown
        }
    }
}

/// An ASCII decimal digit.
pub open spec fn is_digit_char(c: char) -> bool {
    '0' <= c && c <= '9'
}

/// The numeric value of a digit character.
pub open spec fn digit_val(c: char) -> nat {
    (c as int - '0' as int) as nat
}

/// The end of the run of digit characters of `t` that starts at `j`:
/// the first position at or after `j` holding no digit.
pub open spec fn digit_run_end(t: Seq<char>, j: int) -> int
    decreases t.len() - j,
{
    if j < t.len() && is_digit_char(t[j]) {
        digit_run_end(t, j + 1)
    } else {
        j
    }
}

pub proof fn lemma_digit_run_end(t: Seq<char>, j: int)
    requires
        0 <= j <= t.len(),
    ensures
        j <= digit_run_end(t, j) <= t.len(),
        forall|i: int| j <= i < digit_run_end(t, j) ==> is_digit_char(t[i]),
        digit_run_end(t, j) < t.len() ==> !is_digit_char(t[digit_run_end(t, j)]),
    decreases t.len() - j,
{
    if j < t.len() && is_digit_char(t[j]) {
        lemma_digit_run_end(t, j + 1);
    }
}

/// The value of the decimal digits of `t` from `from` to `to`,
/// most significant digit first.
pub open spec fn digits_val(t: Seq<char>, from: int, to: int) -> nat
    decreases to - from,
{
    if from >= to {
        0
    } else {
        digits_val(t, from, to - 1) * 10 + digit_val(t[to - 1])
    }
}

/// The status phrase beginning at position `k` of `t`, if any, and the
/// build state it names.
pub open spec fn status_at(t: Seq<char>, k: int) -> Option<BuildState> {
    if ci_matches_at(t, k, "stable"@) || ci_matches_at(t, k, "back to normal"@) {
        Some(BuildState::Success)
    } else if ci_matches_at(t, k, "broken"@) {
        Some(BuildState::Failure)
    } else {
        None
    }
}

/// The title pattern's separator and tail match at position `i` of `t`:
/// a space and a `#` at `i`, at least one digit, then ` (` and a status phrase.
pub open spec fn title_match_at(t: Seq<char>, i: int) -> bool {
    let ds = i + 2;
    let de = digit_run_end(t, ds);
    &&& 0 <= i
    &&& i + 2 <= t.len()
    &&& t[i] == ' '
    &&& t[i + 1] == '#'
    &&& de > ds
    &&& de + 2 <= t.len()
    &&& t[de] == ' '
    &&& t[de + 1] == '('
    &&& status_at(t, de + 2) is Some
}

/// The last position at or before `i` where the title pattern matches.
pub open spec fn last_match_from(t: Seq<char>, i: int) -> Option<int>
    decreases i + 1,
{
    if i < 0 {
        None
    } else if title_match_at(t, i) {
        Some(i)
    } else {
        last_match_from(t, i - 1)
    }
}

/// The split position the greedy name takes: the last match in `t`.
pub open spec fn spec_find_match(t: Seq<char>) -> Option<int> {
    last_match_from(t, t.len() - 1)
}

/// What a title holds, if it matches the pattern: the name (everything
/// before the separator), the build number's value, and the build state
/// named by the status phrase.
pub open spec fn spec_parse_title(t: Seq<char>) -> Option<(Seq<char>, nat, BuildState)> {
    match spec_find_match(t) {
        None => None,
        Some(i) => {
            let de = digit_run_end(t, i + 2);
            Some((t.subrange(0, i), digits_val(t, i + 2, de), status_at(t, de + 2).unwrap()))
        },
    }
}

/// Finds the end of the digit run of `t` starting at `j`.
fn digit_end(t: &Vec<char>, j: usize) -> (e: usize)
    requires
        j <= t@.len(),
    ensures
        e == digit_run_end(t@, j as int),
        j <= e <= t@.len(),
{
    let mut k = j;
    while k < t.len() && '0' <= t[k] && t[k] <= '9'
        invariant
            j <= k <= t@.len(),
            t@.len() == t.len(),
            digit_run_end(t@, j as int) == digit_run_end(t@, k as int),
        decreases t@.len() - k,
    {
        proof {
            assert(digit_run_end(t@, k as int) == digit_run_end(t@, k + 1 as int));
        }
        k += 1;
    }
    proof {
        assert(digit_run_end(t@, k as int) == k);
    }
    k
}

/// Checks whether the title pattern's separator and tail match at `i`.
fn check_match_at(t: &Vec<char>, i: usize) -> (r: bool)
    requires
        i < t@.len(),
    ensures
        r == title_match_at(t@, i as int),
{
    let n = t.len();
    assert(i < n);
    if t[i] != ' ' {
        return false;
    }
    if i + 1 >= n || t[i + 1] != '#' {
        return false;
    }
    let ds = i + 2;
    let de = digit_end(t, ds);
    if de == ds {
        return false;
    }
    if de > t.len() - 2 {
        return false;
    }
    if t[de] != ' ' || t[de + 1] != '(' {
        return false;
    }
    ci_match_at(t, de + 2, "stable") || ci_match_at(t, de + 2, "back to normal") || ci_match_at(
        t,
        de + 2,
        "broken",
    )
}

pub proof fn lemma_last_match_props(t: Seq<char>, j: int)
    ensures
        match last_match_from(t, j) {
            Some(i) => title_match_at(t, i) && 0 <= i <= j,
            None => forall|m: int| 0 <= m <= j ==> !title_match_at(t, m),
        },
    decreases j + 1,
{
    if j >= 0 && !title_match_at(t, j) {
        lemma_last_match_props(t, j - 1);
    }
}

/// Appending digits can only grow the value they denote.
proof fn lemma_digits_val_mono(t: Seq<char>, a: int, b: int, c: int)
    requires
        a <= b <= c,
    ensures
        digits_val(t, a, c) >= digits_val(t, a, b),
    decreases c - b,
{
    if b < c {
        lemma_digits_val_mono(t, a, b, c - 1);
    }
}

/// Finds the last position of `t` where the title pattern matches.
fn find_last_match(t: &Vec<char>) -> (r: Option<usize>)
    ensures
        match r {
            None => spec_find_match(t@) is None,
            Some(i) => spec_find_match(t@) == Some(i as int) && title_match_at(t@, i as int),
        },
{
    let mut i = t.len();
    while i > 0
        invariant
            0 <= i <= t@.len(),
            t@.len() == t.len(),
            last_match_from(t@, t@.len() - 1) == last_match_from(t@, i as int - 1),
        decreases i,
    {
        if check_match_at(t, i - 1) {
            proof {
                assert(last_match_from(t@, i as int - 1) == Some(i as int - 1));
            }
            return Some(i - 1);
        }
        proof {
            assert(last_match_from(t@, i as int - 1) == last_match_from(t@, i as int - 2));
        }
        i -= 1;
    }
    proof {
        assert(last_match_from(t@, -1) is None);
    }
    None
}

/// Reads the digits of `t` in `[ds, de)` as a decimal number, or reports
/// that their value does not fit in a `u128`.
fn read_digits(t: &Vec<char>, ds: usize, de: usize) -> (r: Option<u128>)
    requires
        0 <= ds <= de <= t@.len(),
        forall|m: int| ds <= m < de ==> is_digit_char(t@[m]),
    ensures
        match r {
            Some(v) => v as nat == digits_val(t@, ds as int, de as int),
            None => digits_val(t@, ds as int, de as int) > u128::MAX as nat,
        },
{
    let mut val: u128 = 0;
    let mut k = ds;
    while k < de
        invariant
            ds <= k <= de <= t@.len(),
            t@.len() == t.len(),
            forall|m: int| ds <= m < de ==> is_digit_char(t@[m]),
            val as nat == digits_val(t@, ds as int, k as int),
        decreases de - k,
    {
        let c = t[k];
        assert(is_digit_char(t@[k as int]));
        let d: u128 = ((c as u32) - 48) as u128;
        proof {
            assert(d as nat == digit_val(t@[k as int]));
        }
        let bound = (u128::MAX - d) / 10;
        proof {
            let m = u128::MAX as int;
            let q = (m - d) / 10;
            vstd::arithmetic::div_mod::lemma_fundamental_div_mod(m - d, 10);
            if val > bound {
                vstd::arithmetic::mul::lemma_mul_inequality(q + 1, val as int, 10);
                assert(val * 10 + d > m);
                assert(digits_val(t@, ds as int, k + 1 as int) > u128::MAX as nat);
                lemma_digits_val_mono(t@, ds as int, k + 1 as int, de as int);
            } else {
                vstd::arithmetic::mul::lemma_mul_inequality(val as int, q, 10);
                assert(val * 10 + d <= m);
            }
        }
        if val > bound {
            return None;
        }
        val = val * 10 + d;
        k += 1;
    }
    Some(val)
}

/// Extracts from a feed entry's title the build name, the build number and
/// the build state, greedily, as the title pattern gives them; `None` for a
/// title that does not match the pattern, or whose build number does not
/// fit in a `u128`.
pub fn parse_title(s: &str) -> (r: Option<(String, u128, BuildState)>)
    ensures
        match spec_parse_title(s@) {
            None => r is None,
            Some(p) => {
                if p.1 > u128::MAX as nat {
                    r is None
                } else {
                    &&& r matches Some(q)
                    &&& q.0@ == p.0
                    &&& q.1 as nat == p.1
                    &&& q.2 == p.2
                }
            },
        },
{
    let chars = str_chars(s);
    let found = find_last_match(&chars);
    match found {
        None => None,
        Some(i) => {
            assert(title_match_at(s@, i as int));
            let ds = i + 2;
            let de = digit_end(&chars, ds);
            proof {
                lemma_digit_run_end(s@, ds as int);
            }
            let val = match read_digits(&chars, ds, de) {
                Some(v) => v,
                None => {
                    return None;
                },
            };
            assert(de + 2 <= chars.len());
            let st = if ci_match_at(&chars, de + 2, "stable") {
                BuildState::Success
            } else if ci_match_at(&chars, de + 2, "back to normal") {
                BuildState::Success
            } else {
                assert(ci_matches_at(s@, de + 2 as int, "broken"@));
                BuildState::Failure
            };
            assert(st == status_at(s@, de + 2 as int).unwrap());
            let name = s.substring_char(0, i).to_owned();
            Some((name, val, st))
        },
    }
}

/// The mathematical content of one build record.
pub ghost struct RecordView {
    pub name: Seq<char>,
    pub build_number: nat,
    pub build_state: BuildState,
    pub updated: int,
    pub link: Seq<char>,
    pub logs: Seq<char>,
}

/// One historical build, extracted from a feed entry. `updated` holds the
/// entry's timestamp as milliseconds since the Unix epoch (its offset only
/// shifts the instant, so the instant alone carries the ordering).
/// `logs` is empty until hydrated.
#[derive(Debug, Clone, PartialEq, Eq)]
pub struct JenkinsResult {
    /// job name
    pub name: String,
    /// job build number
    pub build_number: u128,
    /// did it succeed
    pub build_state: BuildState,
    /// when the job info was last updated, in milliseconds since the epoch
    pub updated: i64,
    /// address of the job
    pub link: String,
    /// job logs (empty until hydrated)
    pub logs: String,
}

impl View for JenkinsResult {
    type V = RecordView;

    open spec fn view(&self) -> RecordView {
        RecordView {
            name: self.name@,
            build_number: self.build_number as nat,
            build_state: self.build_state,
            updated: self.updated as int,
            link: self.link@,
            logs: self.logs@,
        }
    }
}

impl Default for JenkinsResult {
    /// An empty record: epoch timestamp, a placeholder link, failure.
    fn default() -> (r: JenkinsResult)
        ensures
            r@ == (RecordView {
                name: Seq::<char>::empty(),
                build_number: 0,
                build_state: BuildState::Failure,
                updated: 0,
                link: "file:///dev/null"@,
                logs: Seq::<char>::empty(),
            }),
    {
        JenkinsResult {
            name: String::new(),
            build_number: 0,
            build_state: BuildState::Failure,
            updated: 0,
            link: "file:///dev/null".to_owned(),
            logs: String::new(),
        }
    }
}

/// The record's one-line label: `<name> #<build_number>`.
pub open spec fn spec_display_record(r: RecordView) -> Seq<char> {
    r.name + " #"@ + dec_str(r.build_number)
}

impl JenkinsResult {
    /// Renders the record's one-line label, `<name> #<build_number>`.
    pub fn display_string(&self) -> (s: String)
        ensures
            s@ == spec_display_record(self@),
    {
        let mut s = self.name.clone();
        s.append(" #");
        let num = u128_to_string(self.build_number);
        s.append(num.as_str());
        s
    }

    /// Stores freshly fetched console text in the record, replacing -- not
    /// extending -- whatever text an earlier hydration left there.
    pub fn hydrate_logs(&mut self, text: String)
        ensures
            final(self)@ == (RecordView { logs: text@, ..old(self)@ }),
    {
        self.logs = text;
    }
}

/// The records' views, in order.
pub open spec fn records_view(s: Seq<JenkinsResult>) -> Seq<RecordView> {
    s.map_values(|x: JenkinsResult| x@)
}

/// Ascending by `updated`; ties in any order.
pub open spec fn sorted_by_updated(s: Seq<RecordView>) -> bool {
    forall|i: int, j: int| 0 <= i < j < s.len() ==> s[i].updated <= s[j].updated
}

/// `r` placed into `s` after every element it does not strictly precede:
/// stable insertion by `updated`.
pub open spec fn sorted_insert(s: Seq<RecordView>, r: RecordView) -> Seq<RecordView>
    decreases s.len(),
{
    if s.len() == 0 {
        seq![r]
    } else if s.last().updated <= r.updated {
        s.push(r)
    } else {
        sorted_insert(s.drop_last(), r).push(s.last())
    }
}

pub proof fn lemma_sorted_insert_sorted(s: Seq<RecordView>, r: RecordView)
    requires
        sorted_by_updated(s),
    ensures
        sorted_by_updated(sorted_insert(s, r)),
        sorted_insert(s, r).len() == s.len() + 1,
        sorted_insert(s, r).to_multiset() == s.to_multiset().insert(r),
    decreases s.len(),
{
    s.to_multiset_ensures();
    if s.len() == 0 {
        assert(seq![r] =~= Seq::<RecordView>::empty().push(r));
        Seq::<RecordView>::empty().to_multiset_ensures();
    } else if s.last().updated <= r.updated {
        s.to_multiset_ensures();
    } else {
        assert(sorted_by_updated(s.drop_last()));
        lemma_sorted_insert_sorted(s.drop_last(), r);
        let inner = sorted_insert(s.drop_last(), r);
        assert forall|i: int| 0 <= i < inner.len() implies inner[i].updated
            <= s.last().updated by {
            inner.to_multiset_ensures();
            assert(inner.to_multiset().count(inner[i]) > 0);
            if inner[i] != r {
                s.drop_last().to_multiset_ensures();
                assert(s.drop_last().to_multiset().count(inner[i]) > 0);
                let k = choose|k: int|
                    0 <= k < s.drop_last().len() && s.drop_last()[k] == inner[i];
                assert(s[k] == inner[i]);
            }
        }
        s.drop_last().to_multiset_ensures();
        inner.to_multiset_ensures();
        assert(s.drop_last().push(s.last()) =~= s);
        vstd::seq_lib::lemma_multiset_commutative(s.drop_last(), seq![s.last()]);
        assert(s.drop_last() + seq![s.last()] =~= s);
        assert(inner.push(s.last()).to_multiset() =~= inner.to_multiset().insert(s.last()));
        assert(s.to_multiset() =~= s.drop_last().to_multiset().insert(s.last()));
    }
}

/// The mathematical content of a server's connection data.
pub ghost struct ServerView {
    pub url: Seq<char>,
    pub user: Seq<char>,
    pub password: Seq<char>,
}

/// How to connect to one continuous-integration server. The reusable
/// connection handle lives with the code that performs requests, not here.
#[derive(Debug, Clone, PartialEq, Eq)]
pub struct JenkinsServer {
    pub url: String,
    pub user: String,
    pub password: String,
}

impl View for JenkinsServer {
    type V = ServerView;

    open spec fn view(&self) -> ServerView {
        ServerView { url: self.url@, user: self.user@, password: self.password@ }
    }
}

/// The server's one-line label, `<user>:<mask>@<url>`, with the password
/// replaced by one `x` per character.
pub open spec fn spec_display_server(s: ServerView) -> Seq<char> {
    s.user + ":"@ + crate::text::repeat_char('x', s.password.len()) + "@"@ + s.url
}

impl JenkinsServer {
    /// Bundles the connection data for one server.
    pub fn new(url: String, user: String, password: String) -> (s: JenkinsServer)
        ensures
            s@ == (ServerView { url: url@, user: user@, password: password@ }),
    {
        JenkinsServer { url, user, password }
    }

    /// Renders the server's label with the password masked out.
    pub fn display_string(&self) -> (s: String)
        ensures
            s@ == spec_display_server(self@),
    {
        let mut s = self.user.clone();
        s.append(":");
        let mask = crate::text::x_mask(self.password.as_str().unicode_len());
        s.append(mask.as_str());
        s.append("@");
        s.append(self.url.as_str());
        s
    }
}

/// The value under the first occurrence of `key` in an ordered list of fields.
pub open spec fn spec_lookup(fields: Seq<(Seq<char>, Seq<char>)>, key: Seq<char>) -> Option<
    Seq<char>,
>
    decreases fields.len(),
{
    if fields.len() == 0 {
        None
    } else if fields.first().0 == key {
        Some(fields.first().1)
    } else {
        spec_lookup(fields.drop_first(), key)
    }
}

/// The fields' views, in order.
pub open spec fn fields_view(s: Seq<(String, String)>) -> Seq<(Seq<char>, Seq<char>)> {
    s.map_values(|p: (String, String)| (p.0@, p.1@))
}

/// The server a section's fields describe: its `url`, `user` and `password`
/// entries; nothing if any of the three is missing.
pub open spec fn spec_server_of_fields(fields: Seq<(Seq<char>, Seq<char>)>) -> Option<ServerView> {
    match (spec_lookup(fields, "url"@), spec_lookup(fields, "user"@), spec_lookup(
        fields,
        "password"@,
    )) {
        (Some(url), Some(user), Some(password)) => Some(ServerView { url, user, password }),
        _ => None,
    }
}

/// Finds the value under the first occurrence of `key` among `fields`.
fn lookup_field(fields: &Vec<(String, String)>, key: &str) -> (r: Option<String>)
    ensures
        match r {
            Some(v) => spec_lookup(fields_view(fields@), key@) == Some(v@),
            None => spec_lookup(fields_view(fields@), key@) is None,
        },
{
    let k = key.to_owned();
    let ghost fv = fields_view(fields@);
    proof {
        assert(fv.skip(0) =~= fv);
    }
    let mut i: usize = 0;
    while i < fields.len()
        invariant
            0 <= i <= fields@.len(),
            fv == fields_view(fields@),
            k@ == key@,
            spec_lookup(fv, key@) == spec_lookup(fv.skip(i as int), key@),
        decreases fields@.len() - i,
    {
        proof {
            assert(fv[i as int] == (fields@[i as int].0@, fields@[i as int].1@));
            assert(fv.skip(i as int).len() == fv.len() - i);
            assert(fv.skip(i as int).first() == fv[i as int]);
        }
        if fields[i].0 == k {
            return Some(fields[i].1.clone());
        }
        proof {
            assert(fv.skip(i as int).drop_first() =~= fv.skip(i + 1 as int));
        }
        i += 1;
    }
    proof {
        assert(fv.skip(fields@.len() as int) =~= Seq::<(Seq<char>, Seq<char>)>::empty());
    }
    None
}

impl JenkinsServer {
    /// Reads a config section's fields into a server descriptor; a section
    /// missing `url`, `user` or `password` yields nothing.
    pub fn try_from_fields(fields: &Vec<(String, String)>) -> (r: Option<JenkinsServer>)
        ensures
            match spec_server_of_fields(fields_view(fields@)) {
                Some(sv) => r matches Some(s) && s@ == sv,
                None => r is None,
            },
    {
        let url = match lookup_field(fields, "url") {
            Some(v) => v,
            None => {
                return None;
            },
        };
        let user = match lookup_field(fields, "user") {
            Some(v) => v,
            None => {
                return None;
            },
        };
        let password = match lookup_field(fields, "password") {
            Some(v) => v,
            None => {
                return None;
            },
        };
        Some(JenkinsServer { url, user, password })
    }
}

/// Inserts `r` into the vector at its sorted place by `updated`, keeping
/// earlier elements with equal timestamps before it.
pub fn insert_sorted(v: &mut Vec<JenkinsResult>, r: JenkinsResult)
    ensures
        records_view(final(v)@) == sorted_insert(records_view(old(v)@), r@),
{
    let ghost rv = records_view(v@);
    let mut p = v.len();
    proof {
        assert(rv.take(p as int) =~= rv);
        assert(rv.skip(p as int) =~= Seq::<RecordView>::empty());
        assert(sorted_insert(rv, r@) + Seq::<RecordView>::empty() =~= sorted_insert(rv, r@));
    }
    while p > 0 && v[p - 1].updated > r.updated
        invariant
            0 <= p <= v@.len(),
            v@ == old(v)@,
            rv == records_view(v@),
            sorted_insert(rv, r@) == sorted_insert(rv.take(p as int), r@) + rv.skip(p as int),
        decreases p,
    {
        proof {
            let tp = rv.take(p as int);
            assert(tp.len() == p);
            assert(tp.last() == rv[p - 1]);
            assert(rv[p - 1].updated > r@.updated);
            assert(sorted_insert(tp, r@) == sorted_insert(tp.drop_last(), r@).push(tp.last()));
            assert(tp.drop_last() =~= rv.take(p - 1));
            assert(sorted_insert(rv.take(p - 1), r@).push(rv[p - 1]) + rv.skip(p as int)
                =~= sorted_insert(rv.take(p - 1), r@) + rv.skip(p - 1));
        }
        p -= 1;
    }
    proof {
        let tp = rv.take(p as int);
        if p == 0 {
            assert(tp =~= Seq::<RecordView>::empty());
            assert(sorted_insert(tp, r@) == seq![r@]);
        } else {
            assert(tp.last() == rv[p - 1]);
            assert(rv[p - 1].updated <= r@.updated);
            assert(sorted_insert(tp, r@) == tp.push(r@));
        }
    }
    v.insert(p, r);
    proof {
        assert(records_view(v@) =~= records_view(old(v)@).take(p as int).push(r@) + records_view(
            old(v)@,
        ).skip(p as int));
    }
}

} // verus!
