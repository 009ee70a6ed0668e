//! Instants in UTC, held as whole seconds since the Unix epoch and the
//! nanoseconds past them.

use vstd::prelude::*;

verus! {

/// Whether `chrono` has a UTC date and time for `secs` seconds since the Unix
/// epoch and `nanos` nanoseconds past them.
pub uninterp spec fn utc_representable(secs: i64, nanos: u32) -> bool;

/// The text that `chrono` writes for the UTC instant `secs`, `nanos` under the
/// strftime pattern `pattern`.
pub uninterp spec fn utc_formatted(secs: i64, nanos: u32, pattern: Seq<char>) -> Seq<char>;

/// The pattern of the timestamps in a report, such as `Jan 05, 2025 17:42 UTC`.
pub const LABEL_PATTERN: &'static str = "%b %d, %Y %H:%M UTC";

/// `chrono::DateTime::from_timestamp`, asked only whether it yields a date and
/// time: the answer is `utc_representable` of the two numbers.
#[verifier::external_body]
fn utc_exists(secs: i64, nanos: u32) -> (found: bool)
    ensures
        found == utc_representable(secs, nanos),
{
    chrono::DateTime::from_timestamp(secs, nanos).is_some()
}

/// `chrono::DateTime::format` on the instant that
/// `chrono::DateTime::from_timestamp` makes of `secs` and `nanos`, written out
/// as a string: the text is `utc_formatted` of the arguments. Asked only of
/// instants that exist and of the report's own pattern, which `chrono` accepts.
#[verifier::external_body]
fn utc_format(secs: i64, nanos: u32, pattern: &str) -> (text: String)
    requires
        utc_representable(secs, nanos),
        pattern@ == LABEL_PATTERN@,
    ensures
        text@ == utc_formatted(secs, nanos, pattern@),
{
    chrono::DateTime::from_timestamp(secs, nanos).unwrap().format(pattern).to_string()
}

/// An instant in UTC that `chrono` can represent.
#[derive(Clone, Copy, Debug, PartialEq, Eq)]
pub struct Timestamp {
    secs: i64,
    nanos: u32,
}

impl Timestamp {
    #[verifier::type_invariant]
    spec fn representable(self) -> bool {
        utc_representable(self.secs, self.nanos)
    }

    /// Whole seconds since the Unix epoch.
    pub closed spec fn unix_seconds(self) -> i64 {
        self.secs
    }

    /// Nanoseconds past the whole second.
    pub closed spec fn subsec_nanos(self) -> u32 {
        self.nanos
    }

    /// The text of this instant in a report.
    pub open spec fn label(self) -> Seq<char> {
        utc_formatted(self.unix_seconds(), self.subsec_nanos(), LABEL_PATTERN@)
    }

    /// The instant `secs` seconds after the Unix epoch and `nanos` nanoseconds
    /// on, if there is one.
    pub fn new(secs: i64, nanos: u32) -> (out: Option<Timestamp>)
        ensures
            out is Some <==> utc_representable(secs, nanos),
            out matches Some(t) ==> t.unix_seconds() == secs && t.subsec_nanos() == nanos,
    {
        if utc_exists(secs, nanos) {
            Some(Timestamp { secs, nanos })
        } else {
            None
        }
    }

    /// Whole seconds since the Unix epoch.
    pub fn secs(&self) -> (secs: i64)
        ensures
            secs == self.unix_seconds(),
    {
        self.secs
    }

    /// Nanoseconds past the whole second.
    pub fn nanos(&self) -> (nanos: u32)
        ensures
            nanos == self.subsec_nanos(),
    {
        self.nanos
    }

    /// The text of this instant in a report.
    pub fn to_label(&self) -> (text: String)
        ensures
            text@ == self.label(),
    {
        proof {
            use_type_invariant(self);
        }
        utc_format(self.secs, self.nanos, LABEL_PATTERN)
    }
}

} // verus!
