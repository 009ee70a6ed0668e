//! The checker: the outside program that makes one request through the proxy.
//! Here is what it is told; running it is the caller's part.

use crate::numeral::{decimal, decimal_text};
use crate::proxy::{authority_of, ProxyEndpoint};
use crate::run::PROBE_TIMEOUT_SECS;
use vstd::prelude::*;

verus! {

/// The checker's name.
pub const CHECKER: &'static str = "curl";

/// The arguments of the checker for one probe of `address` through `proxy`.
/// The proxy resolves the name; the checker gives up after the probe's
/// timeout, prints the response code and nothing else, and takes any
/// certificate.
pub open spec fn checker_arguments_of(proxy: Seq<char>, address: Seq<char>) -> Seq<Seq<char>> {
    seq![
        "--socks5-hostname"@,
        proxy,
        address,
        "--max-time"@,
        decimal(PROBE_TIMEOUT_SECS as nat),
        "--write-out"@,
        "%{http_code}"@,
        "--silent"@,
        "--output"@,
        "/dev/null"@,
        "--insecure"@,
    ]
}

/// The arguments of the checker for one probe of `address` through `proxy`.
pub fn checker_arguments(proxy: &ProxyEndpoint, address: &str) -> (arguments: Vec<String>)
    ensures
        arguments.deep_view() == checker_arguments_of(authority_of(proxy@), address@),
{
    let mut arguments: Vec<String> = Vec::new();
    arguments.push(String::from_str("--socks5-hostname"));
    arguments.push(proxy.authority());
    arguments.push(String::from_str(address));
    arguments.push(String::from_str("--max-time"));
    arguments.push(decimal_text(PROBE_TIMEOUT_SECS));
    arguments.push(String::from_str("--write-out"));
    arguments.push(String::from_str("%{http_code}"));
    arguments.push(String::from_str("--silent"));
    arguments.push(String::from_str("--output"));
    arguments.push(String::from_str("/dev/null"));
    arguments.push(String::from_str("--insecure"));
    proof {
        assert(arguments.deep_view() =~= checker_arguments_of(authority_of(proxy@), address@));
    }
    arguments
}

} // verus!
