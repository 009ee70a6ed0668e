use onion_monitor::checker::checker_arguments;
use onion_monitor::proxy::ProxyEndpoint;

fn endpoint(host: &str, port: u16) -> ProxyEndpoint {
    ProxyEndpoint { host: host.to_string(), port }
}

fn reference(setting: &str) -> ProxyEndpoint {
    let parts: Vec<&str> = setting.trim_start_matches("socks5://").split(':').collect();
    let host = parts[0];
    let port: u16 = parts.get(1).and_then(|p| p.parse().ok()).unwrap_or(9150);
    endpoint(host, port)
}

#[test]
fn setting_with_scheme_host_and_port() {
    assert_eq!(ProxyEndpoint::parse("socks5://127.0.0.1:9150"), endpoint("127.0.0.1", 9150));
    assert_eq!(ProxyEndpoint::parse("socks5://arti:9050"), endpoint("arti", 9050));
}

#[test]
fn setting_without_a_port_that_can_be_read_gets_the_default() {
    assert_eq!(ProxyEndpoint::parse("socks5://arti"), endpoint("arti", 9150));
    assert_eq!(ProxyEndpoint::parse("arti:"), endpoint("arti", 9150));
    assert_eq!(ProxyEndpoint::parse("arti:port"), endpoint("arti", 9150));
    assert_eq!(ProxyEndpoint::parse("arti:70000"), endpoint("arti", 9150));
    assert_eq!(ProxyEndpoint::parse("arti: 80"), endpoint("arti", 9150));
    assert_eq!(ProxyEndpoint::parse(""), endpoint("", 9150));
}

#[test]
fn setting_is_read_as_the_standard_library_splits_it() {
    let samples = [
        "socks5://127.0.0.1:9150", "127.0.0.1:9050", "socks5://socks5://h:1", "h:80:90", "h::90",
        ":5", "socks5://", "socks5:/h:7", "h:+8", "h:-8", "h:0", "h:65535", "h:65536",
        "socks5://[::1]:9150", "x socks5://h:1", "höst:12", "h:1:", "socks5://h:socks5://",
    ];
    for setting in samples.iter() {
        assert_eq!(ProxyEndpoint::parse(setting), reference(setting), "{:?}", setting);
    }
}

#[test]
fn missing_setting_means_the_default_proxy() {
    assert_eq!(ProxyEndpoint::from_setting(None), endpoint("127.0.0.1", 9150));
    assert_eq!(ProxyEndpoint::from_setting(Some("socks5://tor:9050")), endpoint("tor", 9050));
}

#[test]
fn authority_is_host_colon_port() {
    assert_eq!(endpoint("127.0.0.1", 9150).authority(), "127.0.0.1:9150");
    assert_eq!(endpoint("arti", 0).authority(), "arti:0");
}

#[test]
fn arguments_of_the_checker() {
    let arguments = checker_arguments(&endpoint("127.0.0.1", 9150), "http://abc123xyz.onion");
    assert_eq!(
        arguments,
        vec![
            "--socks5-hostname",
            "127.0.0.1:9150",
            "http://abc123xyz.onion",
            "--max-time",
            "60",
            "--write-out",
            "%{http_code}",
            "--silent",
            "--output",
            "/dev/null",
            "--insecure",
        ]
    );
}

#[test]
fn configuration_from_the_settings() {
    let config = onion_monitor::config::Config::from_settings(
        Some("socks5://arti:9050"),
        Some("t0ken".to_string()),
    );
    assert_eq!(config.proxy, endpoint("arti", 9050));
    assert_eq!(config.authorization(), Some("Bearer t0ken".to_string()));
    let plain = onion_monitor::config::Config::from_settings(None, None);
    assert_eq!(plain.proxy, endpoint("127.0.0.1", 9150));
    assert_eq!(plain.authorization(), None);
}
