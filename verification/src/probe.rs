//! What one probe found, the verdict on it, and what it leaves in the record.

use crate::numeral::{decimal, parse_u16_between, parsed_u16, push_decimal};
use crate::site::{CheckResult, OnionSite, ResultView, SiteView};
use crate::text::{chars_of, trim_bounds, trimmed};
use crate::timestamp::Timestamp;
use vstd::prelude::*;

verus! {

/// How one run of the checker ended.
#[derive(Clone, Copy, Debug, PartialEq, Eq)]
pub enum ProbeAttempt {
    /// The checker could not be started.
    LaunchFailed,
    /// The checker ran and reported failure.
    ExitedNonZero,
    /// The checker ran to its end; `code` is the response code it printed, if
    /// what it printed was one.
    Succeeded { code: Option<u16> },
}

/// What a probe says of a service.
#[derive(Clone, Copy, Debug, PartialEq, Eq)]
pub enum Verdict {
    Offline,
    Online,
    /// The service answered with a server error, whose code this is.
    ServerError(u16),
}

/// The verdict on a response code: codes from 200 up to 499 show a service
/// that answers, codes from 500 up one that fails, and lower codes none.
pub open spec fn code_verdict(code: u16) -> Verdict {
    if 200 <= code < 500 {
        Verdict::Online
    } else if code >= 500 {
        Verdict::ServerError(code)
    } else {
        Verdict::Offline
    }
}

/// The verdict on an attempt. Output that holds no code counts as code 0.
pub open spec fn verdict_of(attempt: ProbeAttempt) -> Verdict {
    match attempt {
        ProbeAttempt::LaunchFailed => Verdict::Offline,
        ProbeAttempt::ExitedNonZero => Verdict::Offline,
        ProbeAttempt::Succeeded { code: Some(code) } => code_verdict(code),
        ProbeAttempt::Succeeded { code: None } => code_verdict(0),
    }
}

/// The latency on record for an attempt that took `elapsed_ms`: the time it
/// took where the checker printed a response code, none otherwise.
pub open spec fn latency_of(attempt: ProbeAttempt, elapsed_ms: u64) -> Option<u64> {
    match attempt {
        ProbeAttempt::Succeeded { code: Some(_) } => Some(elapsed_ms),
        _ => None,
    }
}

/// The status text of a verdict.
pub open spec fn status_text(verdict: Verdict) -> Seq<char> {
    match verdict {
        Verdict::Offline => "offline"@,
        Verdict::Online => "online"@,
        Verdict::ServerError(code) => "error-"@ + decimal(code as nat),
    }
}

/// The response code in the checker's output: the number that the output
/// denotes once the white space around it is gone.
pub open spec fn status_code_in(output: Seq<char>) -> Option<u16> {
    parsed_u16(trimmed(output))
}

/// The record after a probe with verdict `verdict` at the instant `now`: the
/// status it had becomes its previous status.
pub open spec fn probed(site: SiteView, verdict: Verdict, now: Timestamp) -> SiteView {
    SiteView {
        status: status_text(verdict),
        prev_status: site.status,
        last_checked: Some(now),
        ..site
    }
}

/// What a probe of `site` leaves, where the attempt took `elapsed_ms` and ended
/// at `now`.
pub open spec fn outcome_of(
    site: SiteView,
    attempt: ProbeAttempt,
    elapsed_ms: u64,
    now: Timestamp,
) -> ResultView {
    ResultView {
        site: probed(site, verdict_of(attempt), now),
        response_time_ms: latency_of(attempt, elapsed_ms),
    }
}

/// Reads the response code in the checker's output.
pub fn parse_status_code(output: &str) -> (code: Option<u16>)
    ensures
        code == status_code_in(output@),
{
    let chars = chars_of(output);
    let (from, to) = trim_bounds(&chars);
    parse_u16_between(&chars, from, to)
}

/// The verdict on a response code.
pub fn classify_code(code: u16) -> (verdict: Verdict)
    ensures
        verdict == code_verdict(code),
{
    if code >= 200 && code < 500 {
        Verdict::Online
    } else if code >= 500 {
        Verdict::ServerError(code)
    } else {
        Verdict::Offline
    }
}

/// The verdict on an attempt.
pub fn classify(attempt: ProbeAttempt) -> (verdict: Verdict)
    ensures
        verdict == verdict_of(attempt),
{
    match attempt {
        ProbeAttempt::LaunchFailed => Verdict::Offline,
        ProbeAttempt::ExitedNonZero => Verdict::Offline,
        ProbeAttempt::Succeeded { code: Some(code) } => classify_code(code),
        ProbeAttempt::Succeeded { code: None } => classify_code(0),
    }
}

impl ProbeAttempt {
    /// The attempt that the checker's end shows: `launched` says whether it
    /// could be started, `success` whether it reported success, and `output`
    /// is what it printed.
    pub fn from_checker(launched: bool, success: bool, output: &str) -> (attempt: ProbeAttempt)
        ensures
            attempt == if !launched {
                ProbeAttempt::LaunchFailed
            } else if !success {
                ProbeAttempt::ExitedNonZero
            } else {
                (ProbeAttempt::Succeeded { code: status_code_in(output@) })
            },
    {
        if !launched {
            ProbeAttempt::LaunchFailed
        } else if !success {
            ProbeAttempt::ExitedNonZero
        } else {
            ProbeAttempt::Succeeded { code: parse_status_code(output) }
        }
    }

    /// The latency on record for this attempt, which took `elapsed_ms`.
    pub fn latency(&self, elapsed_ms: u64) -> (latency: Option<u64>)
        ensures
            latency == latency_of(*self, elapsed_ms),
    {
        match self {
            ProbeAttempt::Succeeded { code: Some(_) } => Some(elapsed_ms),
            _ => None,
        }
    }
}

impl Verdict {
    /// The status text of this verdict.
    pub fn label(&self) -> (text: String)
        ensures
            text@ == status_text(*self),
    {
        match self {
            Verdict::Offline => String::from_str("offline"),
            Verdict::Online => String::from_str("online"),
            Verdict::ServerError(code) => {
                let mut text = String::from_str("error-");
                push_decimal(&mut text, *code as u64);
                text
            },
        }
    }
}

/// Records one probe of `site`: the attempt took `elapsed_ms` and ended at
/// `now`. The record keeps its title, key and address; the status it had
/// becomes its previous status, and `now` the time it was last checked,
/// whatever the attempt found.
pub fn record_probe(site: &OnionSite, attempt: ProbeAttempt, elapsed_ms: u64, now: Timestamp) -> (out:
    CheckResult)
    ensures
        out@ == outcome_of(site@, attempt, elapsed_ms, now),
        out.site@.prev_status == site@.status,
        out.site@.last_checked == Some(now),
        out.site@.title == site@.title,
        out.site@.name == site@.name,
        out.site@.onion_address == site@.onion_address,
{
    let verdict = classify(attempt);
    CheckResult {
        site: OnionSite {
            title: site.title.clone(),
            name: site.name.clone(),
            onion_address: site.onion_address.clone(),
            status: verdict.label(),
            prev_status: site.status.clone(),
            last_checked: Some(now),
        },
        response_time_ms: attempt.latency(elapsed_ms),
    }
}

} // verus!
