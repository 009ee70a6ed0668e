//! The proxy through which services are probed, as the configuration names it.

use crate::numeral::{decimal, parse_u16_between, parsed_u16, push_decimal};
use crate::position::{first_index, lemma_first_index, lemma_first_index_found};
use crate::text::chars_of;
use vstd::prelude::*;

verus! {

/// The scheme that a proxy setting may start with.
pub const PROXY_SCHEME: &'static str = "socks5://";

/// The setting in force where the configuration names none.
pub const DEFAULT_PROXY: &'static str = "socks5://127.0.0.1:9150";

/// The port in force where the setting names none that can be read.
pub const DEFAULT_PORT: u16 = 9150;

/// A proxy: the host and the port it listens on.
#[derive(Debug, PartialEq, Eq)]
pub struct ProxyEndpoint {
    pub host: String,
    pub port: u16,
}

/// What a `ProxyEndpoint` holds, as mathematical values.
pub ghost struct EndpointView {
    pub host: Seq<char>,
    pub port: u16,
}

impl View for ProxyEndpoint {
    type V = EndpointView;

    open spec fn view(&self) -> EndpointView {
        EndpointView { host: self.host@, port: self.port }
    }
}

/// `s` without the scheme at its start, however often it is repeated there.
pub open spec fn without_scheme(s: Seq<char>) -> Seq<char>
    decreases s.len(),
{
    if PROXY_SCHEME@.len() > 0 && PROXY_SCHEME@.is_prefix_of(s) {
        without_scheme(s.skip(PROXY_SCHEME@.len() as int))
    } else {
        s
    }
}

/// Where the first colon of `s` stands: the length of `s` if it has none.
pub open spec fn colon_at(s: Seq<char>) -> int {
    first_index(s, ':')
}

/// The port that the text after the host names: the number between the first
/// colon and the second, or the default where there is none to read.
pub open spec fn port_of(rest: Seq<char>) -> u16 {
    let at = colon_at(rest);
    if at < rest.len() {
        let tail = rest.skip(at + 1);
        match parsed_u16(tail.take(colon_at(tail))) {
            Some(port) => port,
            None => DEFAULT_PORT,
        }
    } else {
        DEFAULT_PORT
    }
}

/// The proxy that a setting names: the host is what stands between the scheme
/// and the first colon after it.
pub open spec fn endpoint_of(setting: Seq<char>) -> EndpointView {
    let rest = without_scheme(setting);
    EndpointView { host: rest.take(colon_at(rest)), port: port_of(rest) }
}

/// What the checker is told of a proxy: host, colon, port.
pub open spec fn authority_of(endpoint: EndpointView) -> Seq<char> {
    endpoint.host + seq![':'] + decimal(endpoint.port as nat)
}

/// The host that a setting names holds no colon.
pub proof fn lemma_host_holds_no_colon(setting: Seq<char>)
    ensures
        forall|i: int|
            0 <= i < endpoint_of(setting).host.len() ==> endpoint_of(setting).host[i] != ':',
{
    lemma_first_index(without_scheme(setting), ':');
}

/// Whether `pattern` stands in `chars` at `from`.
fn stands_at(chars: &Vec<char>, from: usize, pattern: &Vec<char>) -> (found: bool)
    requires
        from <= chars.len(),
    ensures
        found == pattern@.is_prefix_of(chars@.skip(from as int)),
{
    let ghost rest = chars@.skip(from as int);
    if pattern.len() > chars.len() - from {
        return false;
    }
    let mut i: usize = 0;
    while i < pattern.len()
        invariant
            i <= pattern.len(),
            from + pattern.len() <= chars.len(),
            rest == chars@.skip(from as int),
            forall|j: int| 0 <= j < i ==> chars@[from + j] == pattern@[j],
        decreases pattern.len() - i,
    {
        if chars[from + i] != pattern[i] {
            proof {
                if pattern@.is_prefix_of(rest) {
                    assert(rest.subrange(0, pattern@.len() as int)[i as int] == chars@[from + i]);
                }
            }
            return false;
        }
        i += 1;
    }
    proof {
        assert(pattern@ =~= rest.subrange(0, pattern@.len() as int));
    }
    true
}

/// Where the first colon at or after `from` stands in `chars`.
fn find_colon(chars: &Vec<char>, from: usize) -> (at: usize)
    requires
        from <= chars.len(),
    ensures
        from <= at <= chars.len(),
        at - from == colon_at(chars@.skip(from as int)),
{
    let ghost rest = chars@.skip(from as int);
    let mut at: usize = from;
    while at < chars.len() && chars[at] != ':'
        invariant
            from <= at <= chars.len(),
            rest == chars@.skip(from as int),
            forall|i: int| 0 <= i < at - from ==> rest[i] != ':',
        decreases chars.len() - at,
    {
        at += 1;
    }
    proof {
        lemma_first_index_found(rest, at - from, ':');
    }
    at
}

impl ProxyEndpoint {
    /// Reads a proxy setting such as `socks5://127.0.0.1:9150`.
    pub fn parse(setting: &str) -> (out: ProxyEndpoint)
        ensures
            out@ == endpoint_of(setting@),
    {
        let chars = chars_of(setting);
        let scheme = chars_of(PROXY_SCHEME);
        let mut from: usize = 0;
        proof {
            assert(chars@.skip(0) =~= chars@);
        }
        if scheme.len() > 0 {
            while stands_at(&chars, from, &scheme)
                invariant
                    from <= chars.len(),
                    scheme@ == PROXY_SCHEME@,
                    scheme@.len() > 0,
                    chars@ == setting@,
                    without_scheme(setting@) == without_scheme(chars@.skip(from as int)),
                decreases chars.len() - from,
            {
                proof {
                    assert(chars@.skip(from as int).skip(scheme@.len() as int) =~= chars@.skip(
                        from + scheme@.len(),
                    ));
                }
                from += scheme.len();
            }
        }
        let ghost rest = chars@.skip(from as int);
        proof {
            assert(without_scheme(setting@) == rest);
        }
        let colon = find_colon(&chars, from);
        let mut host = String::new();
        let mut i: usize = from;
        while i < colon
            invariant
                from <= i <= colon <= chars.len(),
                host@ == chars@.subrange(from as int, i as int),
            decreases colon - i,
        {
            host.push(chars[i]);
            proof {
                assert(chars@.subrange(from as int, i + 1) =~= chars@.subrange(
                    from as int,
                    i as int,
                ).push(chars@[i as int]));
            }
            i += 1;
        }
        proof {
            assert(chars@.subrange(from as int, colon as int) =~= rest.take(colon - from));
        }
        let port: u16 = if colon < chars.len() {
            let end = find_colon(&chars, colon + 1);
            proof {
                let tail = rest.skip(colon - from + 1);
                assert(tail =~= chars@.skip(colon + 1));
                assert(chars@.subrange(colon + 1, end as int) =~= tail.take(end - colon - 1));
            }
            match parse_u16_between(&chars, colon + 1, end) {
                Some(port) => port,
                None => DEFAULT_PORT,
            }
        } else {
            DEFAULT_PORT
        };
        ProxyEndpoint { host, port }
    }

    /// The proxy that the configuration names, or the default where it names
    /// none.
    pub fn from_setting(setting: Option<&str>) -> (out: ProxyEndpoint)
        ensures
            out@ == endpoint_of(
                match setting {
                    Some(text) => text@,
                    None => DEFAULT_PROXY@,
                },
            ),
    {
        match setting {
            Some(text) => ProxyEndpoint::parse(text),
            None => ProxyEndpoint::parse(DEFAULT_PROXY),
        }
    }

    /// What the checker is told of this proxy: host, colon, port.
    pub fn authority(&self) -> (text: String)
        ensures
            text@ == authority_of(self@),
    {
        let mut text = self.host.clone();
        text.push(':');
        push_decimal(&mut text, self.port as u64);
        proof {
            assert(self.host@.push(':') =~= self.host@ + seq![':']);
        }
        text
    }
}

} // verus!
