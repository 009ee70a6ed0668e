use onion_monitor::report::{
    caption_of, checked_text, class_of, generate_html, render_card, response_text, summarize,
    Summary,
};
use onion_monitor::site::{CheckResult, OnionSite};
use onion_monitor::timestamp::Timestamp;

fn result(title: &str, status: &str, ms: Option<u64>, checked: Option<i64>) -> CheckResult {
    CheckResult {
        site: OnionSite {
            title: title.to_string(),
            name: title.to_lowercase(),
            onion_address: format!("http://{}.onion", title.to_lowercase()),
            status: status.to_string(),
            prev_status: "unknown".to_string(),
            last_checked: checked.map(|secs| Timestamp::new(secs, 0).unwrap()),
        },
        response_time_ms: ms,
    }
}

#[test]
fn badge_of_each_status() {
    assert_eq!(class_of("online"), "status-online");
    assert_eq!(class_of("offline"), "status-offline");
    assert_eq!(class_of("unknown"), "status-unknown");
    assert_eq!(class_of("error-500"), "status-error");
    assert_eq!(class_of("Online"), "status-error");
    assert_eq!(class_of(""), "status-error");
    assert_eq!(caption_of("online"), "Online");
    assert_eq!(caption_of("offline"), "Offline");
    assert_eq!(caption_of("unknown"), "Unknown");
    assert_eq!(caption_of("error-503"), "Error");
    assert_eq!(caption_of("anything else"), "Error");
}

#[test]
fn response_time_in_milliseconds_or_not_available() {
    assert_eq!(response_text(Some(123)), "123ms");
    assert_eq!(response_text(Some(0)), "0ms");
    assert_eq!(response_text(Some(u64::MAX)), "18446744073709551615ms");
    assert_eq!(response_text(None), "N/A");
}

#[test]
fn time_of_the_last_probe_or_never() {
    assert_eq!(checked_text(None), "Never");
    assert_eq!(checked_text(Timestamp::new(1_431_648_000, 0)), "May 15, 2015 00:00 UTC");
}

#[test]
fn card_holds_the_fields_of_the_result_in_order() {
    let card = render_card(&result("Alpha", "online", Some(250), Some(1_431_648_000)));
    let expected = [
        "<h3 class=\"card-title\">Alpha</h3>",
        "<span class=\"status-badge status-online\">Online</span>",
        "<div class=\"onion-url\">http://alpha.onion</div>",
        "<span class=\"meta-value\">250ms</span>",
        "<span class=\"meta-value\">May 15, 2015 00:00 UTC</span>",
    ];
    let mut from = 0;
    for piece in expected.iter() {
        let at = card[from..].find(piece).unwrap_or_else(|| panic!("{} is missing", piece));
        from += at + piece.len();
    }
    assert!(card.starts_with("        <div class=\"card\">\n"));
    assert!(card.ends_with("        </div>\n"));
}

#[test]
fn card_of_a_service_that_was_never_probed() {
    let card = render_card(&result("Beta", "unknown", None, None));
    assert!(card.contains("<span class=\"status-badge status-unknown\">Unknown</span>"));
    assert!(card.contains("<span class=\"meta-value\">N/A</span>"));
    assert!(card.contains("<span class=\"meta-value\">Never</span>"));
}

#[test]
fn report_is_the_page_around_the_cards() {
    let results = vec![
        result("Alpha", "online", Some(250), Some(1_431_648_000)),
        result("Beta", "error-502", Some(90), Some(1_431_648_060)),
        result("Gamma", "offline", None, Some(1_431_648_120)),
    ];
    let generated = Timestamp::new(1_700_000_000, 0).unwrap();
    let html = generate_html(&results, generated);
    assert!(html.starts_with("<!DOCTYPE html>\n<html lang=\"en\">"));
    assert!(html.ends_with("</body>\n</html>"));
    let cards: String = results.iter().map(|r| render_card(r)).collect();
    let at = html.find(cards.as_str()).expect("the cards stand in the page, in order");
    assert!(html[..at].ends_with("<div class=\"cards-grid\">\n"));
    assert!(html[at + cards.len()..].starts_with("\n        </div>"));
    assert_eq!(html.matches("<div class=\"card\">").count(), 3);
    assert!(html.contains("<span>Last updated: Nov 14, 2023 22:13 UTC</span>"));
    assert!(html.contains("grid-template-columns: 1fr;"));
    assert!(!html.contains("{{"));
}

#[test]
fn report_without_results_has_no_card() {
    let html = generate_html(&Vec::new(), Timestamp::new(0, 0).unwrap());
    assert_eq!(html.matches("<div class=\"card\">").count(), 0);
    assert!(html.contains("<div class=\"cards-grid\">\n\n        </div>"));
    assert!(html.contains("<span>Last updated: Jan 01, 1970 00:00 UTC</span>"));
}

#[test]
fn summary_counts_online_offline_and_all() {
    let results = vec![
        result("A", "online", Some(1), Some(0)),
        result("B", "offline", None, Some(0)),
        result("C", "error-500", Some(2), Some(0)),
        result("D", "online", Some(3), Some(0)),
        result("E", "unknown", None, None),
    ];
    assert_eq!(summarize(&results), Summary { online: 2, offline: 1, total: 5 });
    assert_eq!(summarize(&Vec::new()), Summary { online: 0, offline: 0, total: 0 });
}
