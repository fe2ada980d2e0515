//! Lines of the report.

use vstd::prelude::*;
use vstd::string::StringExecFns;
use chrono::TimeZone;
use crate::freshness::Project;

verus! {

/// The last second of the year 9999 (UTC), in seconds since the epoch: every
/// time from the epoch up to it has a local form.
pub const LATEST_FORMATTED: u64 = 253_402_300_799;

/// Relies on chrono's `TimeZone::timestamp_opt` for `Local` and on
/// `DateTime::format`: the local date and time of `secs` seconds since the
/// epoch, as `YYYY-MM-DD HH:MM:SS`, or `None` where that instant has no
/// single local time. `timestamp_opt` returns a single time for every
/// in-range number of seconds, which takes in the epoch up to the end of
/// the year 9999; each of the six fields is written with at least two digits
/// (the year with four), so the text has at least 19 characters. The text
/// itself depends on the machine's time zone.
#[verifier::external_body]
fn local_time(secs: i64) -> (r: Option<String>)
    ensures
        0 <= secs <= LATEST_FORMATTED ==> r is Some,
        r is Some ==> r->Some_0@.len() >= 19,
{
    match chrono::Local.timestamp_opt(secs, 0) {
        chrono::LocalResult::Single(t) => Some(t.format("%Y-%m-%d %H:%M:%S").to_string()),
        _ => None,
    }
}

/// A report line: the formatted time, a space, and the path.
pub fn project_line(time: &str, path: &str) -> (r: String)
    ensures
        r@ == time@ + " "@ + path@,
{
    let line = String::from_str(time);
    let line = line.concat(" ");
    line.concat(path)
}

/// The report line of a project: its modification time in local time (at
/// least 19 characters), a space, and its path. Every time up to the end of
/// the year 9999 has one; a time beyond what a signed 64-bit seconds count
/// holds has none.
pub fn format_project(project: &Project) -> (r: Option<String>)
    ensures
        project.modified <= LATEST_FORMATTED ==> r is Some,
        project.modified > i64::MAX as u64 ==> r is None,
        r is Some ==> exists|t: Seq<char>|
            t.len() >= 19 && r->Some_0@ == t + " "@ + project.path@,
{
    if project.modified > i64::MAX as u64 {
        return None;
    }
    match local_time(project.modified as i64) {
        Some(time) => {
            let line = project_line(time.as_str(), project.path.as_str());
            assert(line@ == time@ + " "@ + project.path@);
            Some(line)
        },
        None => None,
    }
}

} // verus!
