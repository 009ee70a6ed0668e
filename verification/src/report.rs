//! The report: one card for each probed service, inside a fixed page.

use crate::numeral::{decimal, push_decimal};
use crate::site::{CheckResult, ResultView};
use crate::template::{
    CARD_BEFORE_ADDRESS, CARD_BEFORE_CAPTION, CARD_BEFORE_CHECKED, CARD_BEFORE_CLASS,
    CARD_BEFORE_RESPONSE, CARD_CLOSE, CARD_OPEN, PAGE_BEFORE_STAMP, PAGE_CLOSE, PAGE_OPEN,
};
use crate::text::text_eq;
use crate::timestamp::Timestamp;
use vstd::prelude::*;

verus! {

/// The style class of the badge for a status.
pub open spec fn status_class(status: Seq<char>) -> Seq<char> {
    if status == "online"@ {
        "status-online"@
    } else if status == "offline"@ {
        "status-offline"@
    } else if status == "unknown"@ {
        "status-unknown"@
    } else {
        "status-error"@
    }
}

/// The caption of the badge for a status.
pub open spec fn status_caption(status: Seq<char>) -> Seq<char> {
    if status == "online"@ {
        "Online"@
    } else if status == "offline"@ {
        "Offline"@
    } else if status == "unknown"@ {
        "Unknown"@
    } else {
        "Error"@
    }
}

/// The text for a response time: the milliseconds, or `N/A` where none was
/// measured.
pub open spec fn response_label(response_time_ms: Option<u64>) -> Seq<char> {
    match response_time_ms {
        Some(ms) => decimal(ms as nat) + "ms"@,
        None => "N/A"@,
    }
}

/// The text for the time of the last probe, or `Never`.
pub open spec fn checked_label(last_checked: Option<Timestamp>) -> Seq<char> {
    match last_checked {
        Some(at) => at.label(),
        None => "Never"@,
    }
}

/// The card of one result. Title and address stand in it as they are.
pub open spec fn card_text(result: ResultView) -> Seq<char> {
    CARD_OPEN@ + result.site.title + CARD_BEFORE_CLASS@ + status_class(result.site.status)
        + CARD_BEFORE_CAPTION@ + status_caption(result.site.status) + CARD_BEFORE_ADDRESS@
        + result.site.onion_address + CARD_BEFORE_RESPONSE@ + response_label(
        result.response_time_ms,
    ) + CARD_BEFORE_CHECKED@ + checked_label(result.site.last_checked) + CARD_CLOSE@
}

/// The cards of the results, one after the other.
pub open spec fn cards_text(results: Seq<ResultView>) -> Seq<char>
    decreases results.len(),
{
    if results.len() == 0 {
        Seq::empty()
    } else {
        cards_text(results.drop_last()) + card_text(results.last())
    }
}

/// The report on `results`, made at `generated`.
pub open spec fn report_text(results: Seq<ResultView>, generated: Timestamp) -> Seq<char> {
    PAGE_OPEN@ + cards_text(results) + PAGE_BEFORE_STAMP@ + generated.label() + PAGE_CLOSE@
}

/// The style class of the badge for a status.
pub fn class_of(status: &str) -> (class: &'static str)
    ensures
        class@ == status_class(status@),
{
    if text_eq(status, "online") {
        "status-online"
    } else if text_eq(status, "offline") {
        "status-offline"
    } else if text_eq(status, "unknown") {
        "status-unknown"
    } else {
        "status-error"
    }
}

/// The caption of the badge for a status.
pub fn caption_of(status: &str) -> (caption: &'static str)
    ensures
        caption@ == status_caption(status@),
{
    if text_eq(status, "online") {
        "Online"
    } else if text_eq(status, "offline") {
        "Offline"
    } else if text_eq(status, "unknown") {
        "Unknown"
    } else {
        "Error"
    }
}

/// The text for a response time.
pub fn response_text(response_time_ms: Option<u64>) -> (text: String)
    ensures
        text@ == response_label(response_time_ms),
{
    match response_time_ms {
        Some(ms) => {
            let mut text = String::new();
            push_decimal(&mut text, ms);
            text.append("ms");
            proof {
                assert(Seq::<char>::empty() + decimal(ms as nat) =~= decimal(ms as nat));
            }
            text
        },
        None => String::from_str("N/A"),
    }
}

/// The text for the time of the last probe.
pub fn checked_text(last_checked: Option<Timestamp>) -> (text: String)
    ensures
        text@ == checked_label(last_checked),
{
    match last_checked {
        Some(at) => at.to_label(),
        None => String::from_str("Never"),
    }
}

/// The card of one result.
pub fn render_card(result: &CheckResult) -> (card: String)
    ensures
        card@ == card_text(result@),
{
    let site = &result.site;
    let response = response_text(result.response_time_ms);
    let checked = checked_text(site.last_checked);
    let mut card = String::from_str(CARD_OPEN);
    card.append(site.title.as_str());
    card.append(CARD_BEFORE_CLASS);
    card.append(class_of(site.status.as_str()));
    card.append(CARD_BEFORE_CAPTION);
    card.append(caption_of(site.status.as_str()));
    card.append(CARD_BEFORE_ADDRESS);
    card.append(site.onion_address.as_str());
    card.append(CARD_BEFORE_RESPONSE);
    card.append(response.as_str());
    card.append(CARD_BEFORE_CHECKED);
    card.append(checked.as_str());
    card.append(CARD_CLOSE);
    card
}

/// The report on `results`, made at `generated`: a page with one card for each
/// result, in their order, and the time of the report in its footer.
pub fn generate_html(results: &Vec<CheckResult>, generated: Timestamp) -> (html: String)
    ensures
        html@ == report_text(results.deep_view(), generated),
{
    let ghost all = results.deep_view();
    let mut cards = String::new();
    let mut i: usize = 0;
    while i < results.len()
        invariant
            i <= results.len(),
            all == results.deep_view(),
            cards@ == cards_text(all.take(i as int)),
        decreases results.len() - i,
    {
        let card = render_card(&results[i]);
        cards.append(card.as_str());
        proof {
            assert(all.take(i + 1).drop_last() =~= all.take(i as int));
            assert(all.take(i + 1).last() == results[i as int]@);
        }
        i += 1;
    }
    proof {
        assert(all.take(all.len() as int) =~= all);
    }
    let stamp = generated.to_label();
    let mut html = String::from_str(PAGE_OPEN);
    html.append(cards.as_str());
    html.append(PAGE_BEFORE_STAMP);
    html.append(stamp.as_str());
    html.append(PAGE_CLOSE);
    html
}

/// How many of the results have the status `status`.
pub open spec fn count_with_status(results: Seq<ResultView>, status: Seq<char>) -> nat {
    results.filter(|result: ResultView| result.site.status == status).len()
}

/// The tally at the end of a run.
#[derive(Clone, Copy, Debug, PartialEq, Eq)]
pub struct Summary {
    /// Services found online.
    pub online: usize,
    /// Services found offline.
    pub offline: usize,
    /// Services probed.
    pub total: usize,
}

/// Counts the results by status.
pub fn summarize(results: &Vec<CheckResult>) -> (summary: Summary)
    ensures
        summary.online == count_with_status(results.deep_view(), "online"@),
        summary.offline == count_with_status(results.deep_view(), "offline"@),
        summary.total == results.len(),
{
    let ghost all = results.deep_view();
    let ghost is_online = |result: ResultView| result.site.status == "online"@;
    let ghost is_offline = |result: ResultView| result.site.status == "offline"@;
    let mut online: usize = 0;
    let mut offline: usize = 0;
    let mut i: usize = 0;
    proof {
        assert(all.take(0) =~= Seq::<ResultView>::empty());
    }
    while i < results.len()
        invariant
            i <= results.len(),
            all == results.deep_view(),
            is_online == |result: ResultView| result.site.status == "online"@,
            is_offline == |result: ResultView| result.site.status == "offline"@,
            online == all.take(i as int).filter(is_online).len(),
            offline == all.take(i as int).filter(is_offline).len(),
            online <= i,
            offline <= i,
        decreases results.len() - i,
    {
        proof {
            assert(all.take(i + 1) =~= all.take(i as int).push(results[i as int]@));
            all.take(i as int).lemma_filter_push(results[i as int]@, is_online);
            all.take(i as int).lemma_filter_push(results[i as int]@, is_offline);
        }
        if text_eq(results[i].site.status.as_str(), "online") {
            online += 1;
        }
        if text_eq(results[i].site.status.as_str(), "offline") {
            offline += 1;
        }
        i += 1;
    }
    proof {
        assert(all.take(all.len() as int) =~= all);
    }
    Summary { online, offline, total: results.len() }
}

} // verus!
