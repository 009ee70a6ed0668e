use onion_monitor::merge::{merge_onion_sites, sort_by_title};
use onion_monitor::site::OnionSite;
use onion_monitor::timestamp::Timestamp;

fn fresh(title: &str, name: &str, address: &str) -> OnionSite {
    OnionSite {
        title: title.to_string(),
        name: name.to_string(),
        onion_address: address.to_string(),
        status: "unknown".to_string(),
        prev_status: "unknown".to_string(),
        last_checked: None,
    }
}

fn probed(title: &str, name: &str, address: &str, status: &str, prev: &str, secs: i64) -> OnionSite {
    OnionSite {
        title: title.to_string(),
        name: name.to_string(),
        onion_address: address.to_string(),
        status: status.to_string(),
        prev_status: prev.to_string(),
        last_checked: Timestamp::new(secs, 0),
    }
}

fn titles(sites: &Vec<OnionSite>) -> Vec<String> {
    sites.iter().map(|s| s.title.clone()).collect()
}

#[test]
fn merge_with_nothing_on_file_gives_the_candidates_sorted() {
    let candidates = vec![
        fresh("Bravo", "bravo", "http://b.onion"),
        fresh("Alpha", "alpha", "http://a.onion"),
        fresh("Charlie", "charlie", "http://c.onion"),
    ];
    let out = merge_onion_sites(candidates.clone(), Vec::new());
    assert_eq!(
        out,
        vec![candidates[1].clone(), candidates[0].clone(), candidates[2].clone()]
    );
}

#[test]
fn merge_of_nothing_is_nothing() {
    assert_eq!(merge_onion_sites(Vec::new(), Vec::new()), Vec::new());
}

#[test]
fn merge_sorts_by_title() {
    let candidates = vec![
        fresh("Bravo", "bravo", "http://b.onion"),
        fresh("Alpha", "alpha", "http://a.onion"),
        fresh("Charlie", "charlie", "http://c.onion"),
    ];
    let out = merge_onion_sites(candidates, Vec::new());
    assert_eq!(titles(&out), vec!["Alpha", "Bravo", "Charlie"]);
}

#[test]
fn merge_sorts_by_code_point_not_by_alphabet() {
    let candidates = vec![
        fresh("alpha", "k1", "http://1.onion"),
        fresh("Zulu", "k2", "http://2.onion"),
        fresh("Éclair", "k3", "http://3.onion"),
        fresh("", "k4", "http://4.onion"),
        fresh("Zul", "k5", "http://5.onion"),
    ];
    let out = merge_onion_sites(candidates, Vec::new());
    assert_eq!(titles(&out), vec!["", "Zul", "Zulu", "alpha", "Éclair"]);
}

#[test]
fn merge_preserves_history() {
    let record = probed("Old Title", "svc", "http://old.onion", "online", "offline", 1_700_000_000);
    let candidate = fresh("New Title", "svc", "http://new.onion");
    let out = merge_onion_sites(vec![candidate], vec![record.clone()]);
    assert_eq!(out, vec![record]);
}

#[test]
fn merge_keeps_records_that_the_directory_no_longer_lists() {
    let gone = probed("Gone", "gone", "http://gone.onion", "offline", "online", 1_600_000_000);
    let stays = probed("Stays", "stays", "http://stays.onion", "online", "online", 1_600_000_000);
    let candidates = vec![
        fresh("Stays Renamed", "stays", "http://moved.onion"),
        fresh("Newcomer", "newcomer", "http://new.onion"),
    ];
    let out = merge_onion_sites(candidates.clone(), vec![stays.clone(), gone.clone()]);
    assert_eq!(out, vec![gone, candidates[1].clone(), stays]);
}

#[test]
fn merge_twice_changes_nothing() {
    let existing = vec![
        probed("Mike", "mike", "http://m.onion", "online", "unknown", 1_650_000_000),
        probed("Delta", "delta", "http://d.onion", "error-502", "online", 1_650_000_001),
    ];
    let candidates = vec![
        fresh("Zulu", "zulu", "http://z.onion"),
        fresh("Delta Two", "delta", "http://d2.onion"),
        fresh("Alpha", "alpha", "http://a.onion"),
    ];
    let first = merge_onion_sites(candidates.clone(), existing);
    let second = merge_onion_sites(candidates.clone(), first.clone());
    let third = merge_onion_sites(candidates, second.clone());
    assert_eq!(second, first);
    assert_eq!(third, first);
    assert_eq!(titles(&first), vec!["Alpha", "Delta", "Mike", "Zulu"]);
}

#[test]
fn of_candidates_with_one_key_the_first_enters() {
    let candidates = vec![
        fresh("My Service", "my-service", "http://one.onion"),
        fresh("my_service", "my-service", "http://two.onion"),
    ];
    let out = merge_onion_sites(candidates.clone(), Vec::new());
    assert_eq!(out, vec![candidates[0].clone()]);
}

#[test]
fn of_records_on_file_with_one_key_the_last_stands() {
    let existing = vec![
        probed("First", "dup", "http://one.onion", "online", "unknown", 1_600_000_000),
        probed("Other", "other", "http://o.onion", "online", "unknown", 1_600_000_000),
        probed("Second", "dup", "http://two.onion", "offline", "online", 1_600_000_001),
    ];
    let out = merge_onion_sites(Vec::new(), existing.clone());
    assert_eq!(out, vec![existing[1].clone(), existing[2].clone()]);
}

#[test]
fn records_with_one_title_stand_in_the_order_of_their_arrival() {
    let candidates = vec![
        fresh("Same", "k2", "http://2.onion"),
        fresh("Same", "k1", "http://1.onion"),
        fresh("Other", "k3", "http://3.onion"),
    ];
    let out = merge_onion_sites(candidates.clone(), Vec::new());
    assert_eq!(
        out,
        vec![candidates[2].clone(), candidates[0].clone(), candidates[1].clone()]
    );
}

#[test]
fn records_on_file_arrive_before_the_candidates() {
    let existing = vec![
        probed("Same", "z", "http://z.onion", "online", "unknown", 1_600_000_000),
        probed("Same", "m", "http://m.onion", "offline", "unknown", 1_600_000_000),
    ];
    let candidates = vec![
        fresh("Same", "a", "http://a.onion"),
        fresh("Same", "m", "http://other.onion"),
        fresh("Same", "b", "http://b.onion"),
    ];
    let out = merge_onion_sites(candidates.clone(), existing.clone());
    assert_eq!(
        out,
        vec![
            existing[0].clone(),
            existing[1].clone(),
            candidates[0].clone(),
            candidates[2].clone(),
        ]
    );
}

#[test]
fn record_that_takes_the_place_of_another_keeps_that_place() {
    let existing = vec![
        probed("Same", "dup", "http://one.onion", "online", "unknown", 1_600_000_000),
        probed("Same", "other", "http://o.onion", "online", "unknown", 1_600_000_000),
        probed("Same", "dup", "http://two.onion", "offline", "online", 1_600_000_001),
    ];
    let out = merge_onion_sites(Vec::new(), existing.clone());
    assert_eq!(out, vec![existing[2].clone(), existing[1].clone()]);
}

#[test]
fn sort_agrees_with_the_stable_sort_of_the_standard_library() {
    let sites = vec![
        fresh("b", "1", ""),
        fresh("a", "2", ""),
        fresh("b", "3", ""),
        fresh("", "4", ""),
        fresh("a", "5", ""),
        fresh("ab", "6", ""),
        fresh("B", "7", ""),
        fresh("é", "8", ""),
        fresh("b", "9", ""),
    ];
    let mut expected = sites.clone();
    expected.sort_by(|x, y| x.title.cmp(&y.title));
    assert_eq!(sort_by_title(sites), expected);
}
