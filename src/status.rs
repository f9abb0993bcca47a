//! The service status report.

use vstd::prelude::*;

verus! {

/// The English "time ago" text that timeago's default formatter gives for a
/// duration of `ms` milliseconds.
pub uninterp spec fn timeago_text(ms: u64) -> Seq<char>;

/// Relies on timeago's `Formatter::new().convert`: the text depends on the
/// duration alone.
#[verifier::external_body]
fn time_ago(ms: u64) -> (r: String)
    ensures
        r@ == timeago_text(ms),
{
    timeago::Formatter::new().convert(std::time::Duration::from_millis(ms))
}

/// How long the service has run, where, and which version.
#[derive(Debug, Clone, PartialEq, Eq)]
pub struct BichonStatus {
    /// Milliseconds since the service started.
    pub uptime_ms: i64,
    /// The uptime as text, such as "2 hours ago".
    pub timeago: String,
    /// The offset of the service's time zone.
    pub timezone: String,
    pub version: String,
}

impl BichonStatus {
    pub fn new(uptime_ms: i64, timeago: String, timezone: String, version: String) -> (r: Self)
        ensures
            r.uptime_ms == uptime_ms,
            r.timeago@ == timeago@,
            r.timezone@ == timezone@,
            r.version@ == version@,
    {
        BichonStatus { uptime_ms, timeago, timezone, version }
    }

    /// The status of a service that has run `uptime_ms` milliseconds in the
    /// time zone `timezone`.
    pub fn get(uptime_ms: i64, timezone: String, version: String) -> (r: Self)
        ensures
            r.uptime_ms == uptime_ms,
            r.timeago@ == timeago_text(uptime_ms as u64),
            r.timezone@ == timezone@,
            r.version@ == version@,
    {
        let text = time_ago(uptime_ms as u64);
        Self::new(uptime_ms, text, timezone, version)
    }
}

} // verus!
