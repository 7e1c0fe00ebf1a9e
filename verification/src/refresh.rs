//! Deciding whether the local copy of the nmap service table must be
//! (re)downloaded.
use vstd::prelude::*;

use crate::request::ExecRequest;
use crate::text::{contains_seq, contains_str};

verus! {

/// What `jql::walker` selects with `selector` from the JSON document `json`,
/// as compact JSON text (`None` where the text is no JSON document, or the
/// selection fails).
pub uninterp spec fn jql_selection(json: Seq<char>, selector: Seq<char>) -> Option<Seq<char>>;

/// Calls `jql::walker` with `selector` on the document that
/// `serde_json::from_str` reads from `json`, and hands out the selection as
/// the compact JSON text that `serde_json::to_string` writes; `None` where
/// the text does not parse or the walk fails. The contract claims that the
/// result is the named value `jql_selection` of the two texts. The `requires`
/// admits only the two selectors of the commit report: on them `jql::walker`
/// does not panic, whatever the document (it does panic on `[0]` followed by
/// further selectors where the document is an empty array).
#[verifier::external_body]
fn jql_select(json: &str, selector: &str) -> (r: Option<String>)
    requires
        selector@ == "[0]"@ || selector@ == "\"commit\".\"committer\".\"date\""@,
    ensures
        r matches Some(t) ==> jql_selection(json@, selector@) == Some(t@),
        r is None ==> jql_selection(json@, selector@) is None,
{
    serde_json::from_str::<serde_json::Value>(json)
        .ok()
        .and_then(|v| jql::walker(&v, Some(selector)).ok())
        .and_then(|v| serde_json::to_string(&v).ok())
}

/// The string that the JSON text `json` denotes, where it is a JSON string
/// (`None` where it is any other JSON value, or no JSON at all).
pub uninterp spec fn json_string_value(json: Seq<char>) -> Option<Seq<char>>;

/// Reads a JSON string with `serde_json::from_str::<String>`; the contract
/// claims that the result is the named value `json_string_value` of the text.
#[verifier::external_body]
fn json_string(json: &str) -> (r: Option<String>)
    ensures
        r matches Some(t) ==> json_string_value(json@) == Some(t@),
        r is None ==> json_string_value(json@) is None,
{
    serde_json::from_str::<String>(json).ok()
}

/// The instant that `chrono::DateTime::parse_from_rfc3339` reads from a text:
/// seconds since the UNIX epoch (`DateTime::timestamp`) and the nanoseconds
/// past that second (`DateTime::timestamp_subsec_nanos`); `None` where the
/// text is no RFC 3339 date-time.
pub uninterp spec fn rfc3339_instant(text: Seq<char>) -> Option<(i64, u32)>;

/// Calls `chrono::DateTime::parse_from_rfc3339` and hands out the instant;
/// the contract claims that the result is the named value `rfc3339_instant`
/// of the text.
#[verifier::external_body]
fn parse_rfc3339(text: &str) -> (r: Option<(i64, u32)>)
    ensures
        r == rfc3339_instant(text@),
{
    chrono::DateTime::parse_from_rfc3339(text).ok().map(|d| (d.timestamp(), d.timestamp_subsec_nanos()))
}

/// What to do next while bringing the local service table up to date.
#[derive(Clone, Copy, Debug, PartialEq, Eq, Structural)]
pub enum RefreshAction {
    /// Download the service table and store it.
    Download,
    /// Ask GitHub when the table was last changed.
    QueryLatestCommit,
    /// The local copy is as new as GitHub's: keep it.
    KeepLocal,
    /// GitHub refused the query for now; keep the local copy.
    RateLimited,
    /// The answer of GitHub held no readable commit date.
    UnreadableAnswer,
}

/// The first step: download the table where no local copy exists, else ask
/// GitHub for the date of its latest change.
pub fn refresh_first_step(service_file_exists: bool) -> (a: RefreshAction)
    ensures
        a == if service_file_exists {
            RefreshAction::QueryLatestCommit
        } else {
            RefreshAction::Download
        },
{
    if service_file_exists {
        RefreshAction::QueryLatestCommit
    } else {
        RefreshAction::Download
    }
}

/// The URL that reports the latest commit that changed the service table.
pub fn latest_commit_url() -> (url: &'static str)
    ensures
        url@ == "https://api.github.com/repos/nmap/nmap/commits?path=nmap-services&page=1&per_page=1"@,
{
    "https://api.github.com/repos/nmap/nmap/commits?path=nmap-services&page=1&per_page=1"
}

/// The jql selector of the latest commit in that report.
pub fn latest_commit_selector() -> (s: &'static str)
    ensures
        s@ == "[0]"@,
{
    "[0]"
}

/// The jql selector of the committer date within a commit of the report.
pub fn committer_date_selector() -> (s: &'static str)
    ensures
        s@ == "\"commit\".\"committer\".\"date\""@,
{
    "\"commit\".\"committer\".\"date\""
}

/// The answer of GitHub says that the rate limit was exceeded.
pub open spec fn rate_limited(answer: Seq<char>) -> bool {
    contains_seq(answer, "limit exceeded"@)
}

pub fn is_rate_limited(answer: &str) -> (b: bool)
    ensures
        b == rate_limited(answer@),
{
    contains_str(answer, "limit exceeded")
}

/// The committer date of the first commit of a JSON answer: the commit at
/// `[0]`, within it the value at `"commit"."committer"."date"`, where that is
/// a JSON string.
pub open spec fn commit_date(answer: Seq<char>) -> Option<Seq<char>> {
    match jql_selection(answer, "[0]"@) {
        Some(first) => match jql_selection(first, "\"commit\".\"committer\".\"date\""@) {
            Some(date) => json_string_value(date),
            None => None,
        },
        None => None,
    }
}

/// The committer date of the first commit of the JSON answer, where it
/// holds a JSON string there.
pub fn commit_date_of(answer: &str) -> (date: Option<String>)
    ensures
        date is Some <==> commit_date(answer@) is Some,
        date matches Some(d) ==> commit_date(answer@) == Some(d@),
{
    match jql_select(answer, latest_commit_selector()) {
        Some(first) => match jql_select(first.as_str(), committer_date_selector()) {
            Some(d) => json_string(d.as_str()),
            None => None,
        },
        None => None,
    }
}

/// The instant `(secs, nanos)` lies after `(local_secs, local_nanos)`.
pub open spec fn later_than(secs: i64, nanos: u32, local_secs: i64, local_nanos: u32) -> bool {
    secs > local_secs || (secs == local_secs && nanos > local_nanos)
}

/// Whether the RFC 3339 date `git_date` lies after the local modification
/// time (seconds and nanoseconds since the UNIX epoch); `None` where
/// `git_date` is no RFC 3339 date-time.
pub fn git_copy_is_newer(git_date: &str, local_secs: i64, local_nanos: u32) -> (r: Option<bool>)
    ensures
        r == match rfc3339_instant(git_date@) {
            Some(i) => Some(later_than(i.0, i.1, local_secs, local_nanos)),
            None => None,
        },
{
    match parse_rfc3339(git_date) {
        Some((secs, nanos)) => Some(secs > local_secs || (secs == local_secs && nanos > local_nanos)),
        None => None,
    }
}

/// The step after the commit date `git_date` was read: download where it is
/// later than the local copy, else keep the local copy.
pub fn refresh_on_commit_date(git_date: &str, local_secs: i64, local_nanos: u32) -> (a: RefreshAction)
    ensures
        a == match rfc3339_instant(git_date@) {
            Some(i) => if later_than(i.0, i.1, local_secs, local_nanos) {
                RefreshAction::Download
            } else {
                RefreshAction::KeepLocal
            },
            None => RefreshAction::UnreadableAnswer,
        },
{
    match git_copy_is_newer(git_date, local_secs, local_nanos) {
        Some(true) => RefreshAction::Download,
        Some(false) => RefreshAction::KeepLocal,
        None => RefreshAction::UnreadableAnswer,
    }
}

/// The step after a readable committer date `date`: download where it is
/// later than the local copy, else keep the local copy; an unreadable date
/// ends the refresh.
pub open spec fn decision_on_date(date: Seq<char>, local_secs: i64, local_nanos: u32) -> RefreshAction {
    match rfc3339_instant(date) {
        Some(i) => if later_than(i.0, i.1, local_secs, local_nanos) {
            RefreshAction::Download
        } else {
            RefreshAction::KeepLocal
        },
        None => RefreshAction::UnreadableAnswer,
    }
}

/// GitHub's copy counts as newer exactly when its commit instant comes
/// strictly after the local modification instant: a later second always
/// counts, an earlier one never, and within the same second the nanoseconds
/// decide; no instant is newer than itself, and of two different instants
/// exactly one is the newer.
pub proof fn lemma_later_than_orders_instants(s: i64, n: u32, ls: i64, ln: u32)
    ensures
        s > ls ==> later_than(s, n, ls, ln),
        s < ls ==> !later_than(s, n, ls, ln),
        s == ls ==> (later_than(s, n, ls, ln) <==> n > ln),
        !later_than(s, n, s, n),
        later_than(s, n, ls, ln) ==> !later_than(ls, ln, s, n),
        (s != ls || n != ln) ==> (later_than(s, n, ls, ln) || later_than(ls, ln, s, n)),
{
}

/// The table is downloaded exactly when GitHub's commit date is a readable
/// instant strictly later than the local modification instant; with a
/// readable date that is not later, the local copy is kept.
pub proof fn lemma_download_exactly_when_newer(date: Seq<char>, ls: i64, ln: u32)
    ensures
        rfc3339_instant(date) matches Some(i) ==> (decision_on_date(date, ls, ln)
            == RefreshAction::Download <==> (i.0 > ls || (i.0 == ls && i.1 > ln))),
        rfc3339_instant(date) matches Some(i) ==> (decision_on_date(date, ls, ln)
            == RefreshAction::KeepLocal <==> !(i.0 > ls || (i.0 == ls && i.1 > ln))),
        rfc3339_instant(date) is None ==> decision_on_date(date, ls, ln)
            == RefreshAction::UnreadableAnswer,
{
}

/// The step after GitHub answered `answer`.
pub open spec fn decision_on_answer(answer: Seq<char>, local_secs: i64, local_nanos: u32) -> RefreshAction {
    if rate_limited(answer) {
        RefreshAction::RateLimited
    } else {
        match commit_date(answer) {
            Some(d) => decision_on_date(d, local_secs, local_nanos),
            None => RefreshAction::UnreadableAnswer,
        }
    }
}

/// The step after GitHub answered `answer`: stop where the rate limit was
/// exceeded; else read the committer date and compare it with the local
/// modification time.
pub fn refresh_on_answer(answer: &str, local_secs: i64, local_nanos: u32) -> (a: RefreshAction)
    ensures
        a == decision_on_answer(answer@, local_secs, local_nanos),
        (a == RefreshAction::RateLimited) <==> rate_limited(answer@),
        a != RefreshAction::QueryLatestCommit,
{
    if is_rate_limited(answer) {
        return RefreshAction::RateLimited;
    }
    match commit_date_of(answer) {
        Some(date) => refresh_on_commit_date(date.as_str(), local_secs, local_nanos),
        None => RefreshAction::UnreadableAnswer,
    }
}

/// The request that downloads the nmap service table.
pub fn nmap_services_request() -> (r: ExecRequest)
    ensures
        r.url@ == "https://raw.githubusercontent.com/nmap/nmap/master/nmap-services"@,
        r.user_agent@ == "frizz"@,
        !r.verbose,
        r.disable_cert_validation,
        r.disable_hostname_validation,
        r.post_data@.len() == 0,
        r.http_method@ == "GET"@,
        r.progress_bar,
{
    let empty = "";
    proof {
        reveal_strlit("");
    }
    ExecRequest {
        url: String::from_str("https://raw.githubusercontent.com/nmap/nmap/master/nmap-services"),
        user_agent: String::from_str("frizz"),
        verbose: false,
        disable_cert_validation: true,
        disable_hostname_validation: true,
        post_data: String::from_str(empty),
        http_method: String::from_str("GET"),
        progress_bar: true,
    }
}

} // verus!
