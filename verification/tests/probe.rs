use onion_monitor::candidate::{append_sites, GitHubProject};
use onion_monitor::merge::merge_onion_sites;
use onion_monitor::probe::{
    classify, classify_code, parse_status_code, record_probe, ProbeAttempt, Verdict,
};
use onion_monitor::site::OnionSite;
use onion_monitor::timestamp::Timestamp;

fn site(status: &str, prev: &str) -> OnionSite {
    OnionSite {
        title: "Example Node".to_string(),
        name: "example-node".to_string(),
        onion_address: "http://abc123xyz.onion".to_string(),
        status: status.to_string(),
        prev_status: prev.to_string(),
        last_checked: None,
    }
}

fn at(secs: i64) -> Timestamp {
    Timestamp::new(secs, 0).unwrap()
}

#[test]
fn classifier_boundaries() {
    assert_eq!(classify_code(199), Verdict::Offline);
    assert_eq!(classify_code(200), Verdict::Online);
    assert_eq!(classify_code(404), Verdict::Online);
    assert_eq!(classify_code(499), Verdict::Online);
    assert_eq!(classify_code(500), Verdict::ServerError(500));
    assert_eq!(classify_code(0), Verdict::Offline);
    assert_eq!(classify_code(65535), Verdict::ServerError(65535));
}

#[test]
fn every_code_falls_in_one_of_three_ranges() {
    let mut code: u16 = 0;
    loop {
        let expected = if code < 200 {
            Verdict::Offline
        } else if code < 500 {
            Verdict::Online
        } else {
            Verdict::ServerError(code)
        };
        assert_eq!(classify_code(code), expected);
        if code == u16::MAX {
            break;
        }
        code += 1;
    }
}

#[test]
fn failures_of_the_checker_mean_offline() {
    assert_eq!(classify(ProbeAttempt::LaunchFailed), Verdict::Offline);
    assert_eq!(classify(ProbeAttempt::ExitedNonZero), Verdict::Offline);
    assert_eq!(classify(ProbeAttempt::Succeeded { code: None }), Verdict::Offline);
    assert_eq!(classify(ProbeAttempt::Succeeded { code: Some(204) }), Verdict::Online);
    assert_eq!(classify(ProbeAttempt::Succeeded { code: Some(503) }), Verdict::ServerError(503));
}

#[test]
fn status_texts() {
    assert_eq!(Verdict::Online.label(), "online");
    assert_eq!(Verdict::Offline.label(), "offline");
    assert_eq!(Verdict::ServerError(500).label(), "error-500");
    assert_eq!(Verdict::ServerError(65535).label(), "error-65535");
}

#[test]
fn status_code_is_read_as_the_standard_library_reads_it() {
    let samples = [
        "200", "000", " 200\n", "\t404 ", "+200", "-200", "", " ", "abc", "2 00", "20x", "65535",
        "65536", "99999999999999999999", "0000000000000000000000000500", "+", "-", "++1", "+-1",
        "\u{a0}301\u{2003}", "\u{feff}200", "２００", "200\u{0}", "1e3", "0x10", "5_0",
    ];
    for text in samples.iter() {
        let expected: Option<u16> = text.trim().parse().ok();
        assert_eq!(parse_status_code(text), expected, "{:?}", text);
    }
}

#[test]
fn every_numeral_near_the_range_is_read_as_the_standard_library_reads_it() {
    let mut n: u32 = 0;
    while n <= 70_000 {
        for text in [format!("{}", n), format!("+{}", n), format!("00{}", n), format!(" {}\n", n)] {
            let expected: Option<u16> = text.trim().parse().ok();
            assert_eq!(parse_status_code(&text), expected, "{:?}", text);
        }
        n += 1;
    }
}

#[test]
fn status_text_of_a_server_error_reads_back_as_its_code() {
    let mut code: u16 = 500;
    loop {
        let label = Verdict::ServerError(code).label();
        assert_eq!(label, format!("error-{}", code));
        assert_eq!(parse_status_code(&label["error-".len()..]), Some(code));
        if code == u16::MAX {
            break;
        }
        code += 1;
    }
}

#[test]
fn attempt_from_the_end_of_the_checker() {
    assert_eq!(ProbeAttempt::from_checker(false, false, ""), ProbeAttempt::LaunchFailed);
    assert_eq!(ProbeAttempt::from_checker(false, true, "200"), ProbeAttempt::LaunchFailed);
    assert_eq!(ProbeAttempt::from_checker(true, false, "200"), ProbeAttempt::ExitedNonZero);
    assert_eq!(
        ProbeAttempt::from_checker(true, true, "200"),
        ProbeAttempt::Succeeded { code: Some(200) }
    );
    assert_eq!(
        ProbeAttempt::from_checker(true, true, "garbage"),
        ProbeAttempt::Succeeded { code: None }
    );
}

#[test]
fn latency_is_kept_only_where_a_code_was_read() {
    assert_eq!(ProbeAttempt::Succeeded { code: Some(200) }.latency(1234), Some(1234));
    assert_eq!(ProbeAttempt::Succeeded { code: Some(0) }.latency(7), Some(7));
    assert_eq!(ProbeAttempt::Succeeded { code: Some(503) }.latency(9), Some(9));
    assert_eq!(ProbeAttempt::Succeeded { code: None }.latency(1234), None);
    assert_eq!(ProbeAttempt::ExitedNonZero.latency(1234), None);
    assert_eq!(ProbeAttempt::LaunchFailed.latency(1234), None);
}

#[test]
fn probe_moves_the_status_to_the_previous_status() {
    let before = site("online", "unknown");
    let now = at(1_700_000_000);
    let result = record_probe(&before, ProbeAttempt::Succeeded { code: Some(500) }, 321, now);
    assert_eq!(result.site.status, "error-500");
    assert_eq!(result.site.prev_status, "online");
    assert_eq!(result.site.last_checked, Some(now));
    assert_eq!(result.site.title, before.title);
    assert_eq!(result.site.name, before.name);
    assert_eq!(result.site.onion_address, before.onion_address);
    assert_eq!(result.response_time_ms, Some(321));
}

#[test]
fn failed_probe_still_sets_the_time_of_the_last_check() {
    let before = site("error-502", "online");
    let now = at(1_700_000_123);
    for attempt in [
        ProbeAttempt::LaunchFailed,
        ProbeAttempt::ExitedNonZero,
        ProbeAttempt::Succeeded { code: None },
    ] {
        let result = record_probe(&before, attempt, 60_000, now);
        assert_eq!(result.site.status, "offline");
        assert_eq!(result.site.prev_status, "error-502");
        assert_eq!(result.site.last_checked, Some(now));
        assert_eq!(result.response_time_ms, None);
    }
}

#[test]
fn end_to_end_candidate_is_reconciled_and_probed() {
    let projects = vec![GitHubProject {
        name: "Example Node".to_string(),
        onion: Some("abc123xyz.onion".to_string()),
    }];
    let mut candidates = Vec::new();
    append_sites(&mut candidates, &projects);
    let registry = merge_onion_sites(candidates, Vec::new());
    assert_eq!(registry.len(), 1);
    assert_eq!(registry[0].name, "example-node");
    assert_eq!(registry[0].onion_address, "http://abc123xyz.onion");
    assert_eq!(registry[0].status, "unknown");
    let attempt = ProbeAttempt::from_checker(true, true, "403");
    let result = record_probe(&registry[0], attempt, 150, at(1_700_000_000));
    assert_eq!(result.site.status, "online");
    assert_eq!(result.site.prev_status, "unknown");
}
