use onion_monitor::candidate::{GitHubFile, GitHubProject};
use onion_monitor::probe::ProbeAttempt;
use onion_monitor::run::{copy_sites, Action, Event, Phase, Run, PROBE_PAUSE_SECS, PROBE_TIMEOUT_SECS};
use onion_monitor::site::OnionSite;
use onion_monitor::timestamp::Timestamp;

fn file(name: &str, url: Option<&str>) -> GitHubFile {
    GitHubFile {
        name: name.to_string(),
        file_type: "file".to_string(),
        download_url: url.map(|s| s.to_string()),
    }
}

fn project(name: &str, onion: &str) -> GitHubProject {
    GitHubProject { name: name.to_string(), onion: Some(onion.to_string()) }
}

fn on_file(title: &str, name: &str, status: &str) -> OnionSite {
    OnionSite {
        title: title.to_string(),
        name: name.to_string(),
        onion_address: format!("http://{}.onion", name),
        status: status.to_string(),
        prev_status: "unknown".to_string(),
        last_checked: Timestamp::new(1_600_000_000, 0),
    }
}

fn at(secs: i64) -> Timestamp {
    Timestamp::new(secs, 0).unwrap()
}

fn probed(code: u16, secs: i64) -> Event {
    Event::Probed {
        attempt: ProbeAttempt::Succeeded { code: Some(code) },
        elapsed_ms: 100,
        now: at(secs),
    }
}

fn reconciled(candidates: Vec<GitHubProject>, existing: Option<Vec<OnionSite>>) -> Run {
    let run = Run::new();
    let run = run.advance(Event::Listed(Some(vec![file("a.json", Some("https://x/a.json"))])));
    let run = run.advance(Event::Fetched(Some(candidates)));
    run.advance(Event::Loaded(existing))
}

#[test]
fn builtin_delays() {
    assert_eq!(PROBE_TIMEOUT_SECS, 60);
    assert_eq!(PROBE_PAUSE_SECS, 2);
}

#[test]
fn run_starts_by_asking_for_the_listing() {
    let run = Run::new();
    assert_eq!(run.phase(), Phase::Listing);
    assert_eq!(run.action(), Action::ListDirectory);
    assert!(run.sites().is_empty());
    assert!(run.results().is_empty());
}

#[test]
fn whole_run_from_listing_to_report() {
    let run = Run::new();
    let listing = vec![
        file("nodes.json", Some("https://x/nodes.json")),
        file("README.md", Some("https://x/README.md")),
        file("wallets.json", Some("https://x/wallets.json")),
    ];
    let run = run.advance(Event::Listed(Some(listing)));
    assert_eq!(run.action(), Action::FetchFile(0));
    assert_eq!(run.files()[0].name, "nodes.json");
    let run = run.advance(Event::Fetched(Some(vec![project("Example Node", "abc123xyz.onion")])));
    assert_eq!(run.action(), Action::FetchFile(1));
    assert_eq!(run.files()[1].name, "wallets.json");
    let run = run.advance(Event::Fetched(Some(vec![project("Another", "https://other.onion")])));
    assert_eq!(run.action(), Action::LoadSnapshot);
    let run = run.advance(Event::Loaded(Some(vec![on_file("Known", "known", "online")])));
    assert_eq!(run.action(), Action::SaveSnapshot);
    assert_eq!(run.phase(), Phase::SavingMerged);
    let titles: Vec<&str> = run.sites().iter().map(|s| s.title.as_str()).collect();
    assert_eq!(titles, vec!["Another", "Example Node", "Known"]);
    assert_eq!(run.snapshot(), copy_sites(run.sites()));

    let run = run.advance(Event::Saved(true));
    assert_eq!(run.action(), Action::Probe(0));
    let run = run.advance(probed(200, 1_700_000_000));
    assert_eq!(run.action(), Action::Pause(2));
    let run = run.advance(Event::Paused);
    assert_eq!(run.action(), Action::Probe(1));
    let run = run.advance(probed(403, 1_700_000_010));
    let run = run.advance(Event::Paused);
    assert_eq!(run.action(), Action::Probe(2));
    let run = run.advance(Event::Probed {
        attempt: ProbeAttempt::ExitedNonZero,
        elapsed_ms: 60_000,
        now: at(1_700_000_100),
    });
    assert_eq!(run.action(), Action::Pause(2));
    let run = run.advance(Event::Paused);
    assert_eq!(run.action(), Action::SaveSnapshot);
    assert_eq!(run.phase(), Phase::SavingProbed);

    let snapshot = run.snapshot();
    let statuses: Vec<&str> = snapshot.iter().map(|s| s.status.as_str()).collect();
    assert_eq!(statuses, vec!["online", "online", "offline"]);
    let previous: Vec<&str> = snapshot.iter().map(|s| s.prev_status.as_str()).collect();
    assert_eq!(previous, vec!["unknown", "unknown", "online"]);
    assert_eq!(snapshot[1].name, "example-node");
    assert_eq!(snapshot[1].onion_address, "http://abc123xyz.onion");
    assert_eq!(snapshot[2].last_checked, Some(at(1_700_000_100)));
    assert_eq!(run.results()[0].response_time_ms, Some(100));
    assert_eq!(run.results()[2].response_time_ms, None);

    let run = run.advance(Event::Saved(true));
    assert_eq!(run.action(), Action::WriteReport);
    let run = run.advance(Event::Written(true));
    assert_eq!(run.action(), Action::Finish);
    assert_eq!(run.phase(), Phase::Done);
    let run = run.advance(Event::Paused);
    assert_eq!(run.phase(), Phase::Done);
    assert_eq!(run.results().len(), 3);
}

#[test]
fn listing_that_could_not_be_had_gives_no_candidates() {
    let run = Run::new().advance(Event::Listed(None));
    assert_eq!(run.action(), Action::LoadSnapshot);
    let run = run.advance(Event::Loaded(Some(vec![on_file("Known", "known", "offline")])));
    assert_eq!(run.sites().len(), 1);
    assert_eq!(run.sites()[0].title, "Known");
}

#[test]
fn listing_without_files_of_candidates_goes_on_to_the_registry() {
    let listing = vec![file("README.md", Some("https://x/README.md")), file("a.json", None)];
    let run = Run::new().advance(Event::Listed(Some(listing)));
    assert_eq!(run.action(), Action::LoadSnapshot);
    assert!(run.files().is_empty());
}

#[test]
fn file_that_could_not_be_read_is_skipped() {
    let listing = vec![file("a.json", Some("https://x/a.json")), file("b.json", Some("https://x/b.json"))];
    let run = Run::new().advance(Event::Listed(Some(listing)));
    let run = run.advance(Event::Fetched(None));
    assert_eq!(run.action(), Action::FetchFile(1));
    let run = run.advance(Event::Fetched(Some(vec![project("Only", "only.onion")])));
    let run = run.advance(Event::Loaded(None));
    assert_eq!(run.sites().len(), 1);
    assert_eq!(run.sites()[0].name, "only");
}

#[test]
fn registry_that_could_not_be_read_counts_as_empty() {
    let run = reconciled(vec![project("Example Node", "abc123xyz.onion")], None);
    assert_eq!(run.action(), Action::SaveSnapshot);
    assert_eq!(run.sites().len(), 1);
    assert_eq!(run.sites()[0].status, "unknown");
    assert_eq!(run.sites()[0].last_checked, None);
}

#[test]
fn empty_registry_is_saved_twice_and_reported() {
    let run = Run::new().advance(Event::Listed(None)).advance(Event::Loaded(None));
    assert_eq!(run.action(), Action::SaveSnapshot);
    let run = run.advance(Event::Saved(true));
    assert_eq!(run.action(), Action::SaveSnapshot);
    assert_eq!(run.phase(), Phase::SavingProbed);
    let run = run.advance(Event::Saved(true));
    assert_eq!(run.action(), Action::WriteReport);
}

#[test]
fn snapshot_that_could_not_be_written_ends_the_run() {
    let run = reconciled(vec![project("Example Node", "abc123xyz.onion")], None);
    let run = run.advance(Event::Saved(false));
    assert_eq!(run.phase(), Phase::Failed);
    assert_eq!(run.action(), Action::Abort);
    let run = run.advance(Event::Saved(true));
    assert_eq!(run.action(), Action::Abort);
}

#[test]
fn report_that_could_not_be_written_ends_the_run() {
    let run = Run::new().advance(Event::Listed(None)).advance(Event::Loaded(None));
    let run = run.advance(Event::Saved(true)).advance(Event::Saved(true));
    let run = run.advance(Event::Written(false));
    assert_eq!(run.action(), Action::Abort);
}

#[test]
fn event_that_was_not_asked_for_ends_the_run() {
    assert_eq!(Run::new().advance(Event::Paused).action(), Action::Abort);
    assert_eq!(Run::new().advance(Event::Loaded(None)).action(), Action::Abort);
    let run = reconciled(vec![project("Example Node", "abc123xyz.onion")], None);
    let run = run.advance(Event::Saved(true));
    assert_eq!(run.action(), Action::Probe(0));
    assert_eq!(run.advance(Event::Paused).action(), Action::Abort);
}

#[test]
fn snapshot_in_the_middle_of_probing_mixes_probed_and_unprobed() {
    let run = reconciled(
        vec![project("Bravo", "b.onion"), project("Alpha", "a.onion")],
        None,
    );
    let run = run.advance(Event::Saved(true)).advance(probed(500, 1_700_000_000));
    let snapshot = run.snapshot();
    assert_eq!(snapshot[0].title, "Alpha");
    assert_eq!(snapshot[0].status, "error-500");
    assert_eq!(snapshot[0].prev_status, "unknown");
    assert_eq!(snapshot[1].title, "Bravo");
    assert_eq!(snapshot[1].status, "unknown");
    assert_eq!(snapshot[1].last_checked, None);
}
