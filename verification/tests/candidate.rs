use onion_monitor::candidate::{
    append_sites, derive_key, fetchable_files, hyphenate, normalize_address, placeholder,
    GitHubFile, GitHubProject,
};
use onion_monitor::site::OnionSite;

fn project(name: &str, onion: Option<&str>) -> GitHubProject {
    GitHubProject { name: name.to_string(), onion: onion.map(|s| s.to_string()) }
}

fn file(name: &str, file_type: &str, url: Option<&str>) -> GitHubFile {
    GitHubFile {
        name: name.to_string(),
        file_type: file_type.to_string(),
        download_url: url.map(|s| s.to_string()),
    }
}

#[test]
fn key_of_a_title_with_space_and_underscore() {
    assert_eq!(derive_key("My Service_Name"), "my-service-name");
}

#[test]
fn key_is_the_same_for_the_same_title() {
    assert_eq!(derive_key("Some Title"), derive_key("Some Title"));
}

#[test]
fn key_keeps_repeated_separators() {
    assert_eq!(derive_key("A  B__C _D"), "a--b--c--d");
    assert_eq!(derive_key(""), "");
    assert_eq!(derive_key("already-kebab"), "already-kebab");
}

#[test]
fn key_is_lowercase_beyond_ascii() {
    assert_eq!(derive_key("ÉCOLE Ünïcode"), "école-ünïcode");
    assert_eq!(derive_key("ΑΣ"), "ας");
    assert_eq!(derive_key("İ"), "i\u{307}");
}

#[test]
fn hyphenate_touches_spaces_and_underscores_only() {
    assert_eq!(hyphenate("a b_c-d\te"), "a-b-c-d\te");
    assert_eq!(hyphenate("Keep Case"), "Keep-Case");
}

#[test]
fn address_without_scheme_gets_plain_http() {
    assert_eq!(normalize_address("abc123xyz.onion"), "http://abc123xyz.onion");
    assert_eq!(normalize_address("http://abc.onion"), "http://abc.onion");
    assert_eq!(normalize_address("https://abc.onion/path"), "https://abc.onion/path");
    assert_eq!(normalize_address("HTTP://abc.onion"), "http://HTTP://abc.onion");
    assert_eq!(normalize_address("http:/abc.onion"), "http://http:/abc.onion");
    assert_eq!(normalize_address("ftp://abc.onion"), "http://ftp://abc.onion");
}

#[test]
fn placeholders_are_the_empty_address_and_the_bare_suffix() {
    assert!(placeholder(""));
    assert!(placeholder(".onion"));
    assert!(!placeholder("a.onion"));
    assert!(!placeholder(".onion "));
    assert!(!placeholder("http://.onion"));
}

#[test]
fn entry_becomes_a_record_that_was_never_probed() {
    let site = project("Example Node", Some("abc123xyz.onion")).to_site();
    assert_eq!(
        site,
        Some(OnionSite {
            title: "Example Node".to_string(),
            name: "example-node".to_string(),
            onion_address: "http://abc123xyz.onion".to_string(),
            status: "unknown".to_string(),
            prev_status: "unknown".to_string(),
            last_checked: None,
        })
    );
}

#[test]
fn entry_without_an_address_gives_no_record() {
    assert_eq!(project("No Address", None).to_site(), None);
    assert_eq!(project("Empty", Some("")).to_site(), None);
    assert_eq!(project("Soon", Some(".onion")).to_site(), None);
}

#[test]
fn records_are_appended_in_the_order_of_the_entries() {
    let mut sites = vec![project("First", Some("first.onion")).to_site().unwrap()];
    let projects = vec![
        project("Skipped", Some(".onion")),
        project("Second", Some("https://second.onion")),
        project("None", None),
        project("Third One", Some("third.onion")),
    ];
    append_sites(&mut sites, &projects);
    let titles: Vec<&str> = sites.iter().map(|s| s.title.as_str()).collect();
    assert_eq!(titles, vec!["First", "Second", "Third One"]);
    assert_eq!(sites[1].onion_address, "https://second.onion");
    assert_eq!(sites[2].name, "third-one");
    append_sites(&mut sites, &Vec::new());
    assert_eq!(sites.len(), 3);
}

#[test]
fn only_json_files_with_a_place_to_fetch_them_are_kept() {
    let listing = vec![
        file("a.json", "file", Some("https://x/a.json")),
        file("b.txt", "file", Some("https://x/b.txt")),
        file("c.json", "dir", Some("https://x/c.json")),
        file("d.json", "file", None),
        file(".json", "file", Some("https://x/.json")),
        file("e.JSON", "file", Some("https://x/e.JSON")),
        file("f.json", "file", Some("https://x/f.json")),
    ];
    let kept = fetchable_files(listing);
    let names: Vec<&str> = kept.iter().map(|f| f.name.as_str()).collect();
    assert_eq!(names, vec!["a.json", ".json", "f.json"]);
    assert!(fetchable_files(Vec::new()).is_empty());
}
