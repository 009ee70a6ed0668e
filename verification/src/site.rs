//! The records of the registry and the outcome of one probe.

use crate::timestamp::Timestamp;
use vstd::prelude::*;

verus! {

/// One monitored service.
#[derive(Debug, PartialEq, Eq)]
pub struct OnionSite {
    /// Display name, as the directory gives it.
    pub title: String,
    /// Key of the record in the registry, derived from the title.
    pub name: String,
    /// Address to probe, always with a scheme.
    pub onion_address: String,
    /// Status after the latest probe.
    pub status: String,
    /// Status before the latest probe.
    pub prev_status: String,
    /// When the service was last probed, whatever came of it.
    pub last_checked: Option<Timestamp>,
}

/// What an `OnionSite` holds, as mathematical values.
pub ghost struct SiteView {
    pub title: Seq<char>,
    pub name: Seq<char>,
    pub onion_address: Seq<char>,
    pub status: Seq<char>,
    pub prev_status: Seq<char>,
    pub last_checked: Option<Timestamp>,
}

impl View for OnionSite {
    type V = SiteView;

    open spec fn view(&self) -> SiteView {
        SiteView {
            title: self.title@,
            name: self.name@,
            onion_address: self.onion_address@,
            status: self.status@,
            prev_status: self.prev_status@,
            last_checked: self.last_checked,
        }
    }
}

impl DeepView for OnionSite {
    type V = SiteView;

    open spec fn deep_view(&self) -> SiteView {
        self@
    }
}

impl Clone for OnionSite {
    fn clone(&self) -> (out: Self)
        ensures
            out == *self,
    {
        OnionSite {
            title: self.title.clone(),
            name: self.name.clone(),
            onion_address: self.onion_address.clone(),
            status: self.status.clone(),
            prev_status: self.prev_status.clone(),
            last_checked: self.last_checked,
        }
    }
}

/// A record after one probe, with the time the probe took where the service
/// answered.
#[derive(Debug, PartialEq, Eq)]
pub struct CheckResult {
    pub site: OnionSite,
    pub response_time_ms: Option<u64>,
}

/// What a `CheckResult` holds, as mathematical values.
pub ghost struct ResultView {
    pub site: SiteView,
    pub response_time_ms: Option<u64>,
}

impl View for CheckResult {
    type V = ResultView;

    open spec fn view(&self) -> ResultView {
        ResultView { site: self.site@, response_time_ms: self.response_time_ms }
    }
}

impl DeepView for CheckResult {
    type V = ResultView;

    open spec fn deep_view(&self) -> ResultView {
        self@
    }
}

impl Clone for CheckResult {
    fn clone(&self) -> (out: Self)
        ensures
            out == *self,
    {
        CheckResult { site: self.site.clone(), response_time_ms: self.response_time_ms }
    }
}

} // verus!
