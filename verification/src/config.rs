//! The configuration of a run, made once at its start and handed to whatever
//! needs it.

use crate::proxy::{endpoint_of, EndpointView, ProxyEndpoint, DEFAULT_PROXY};
use vstd::prelude::*;

verus! {

/// What a run is configured with.
#[derive(Debug, PartialEq, Eq)]
pub struct Config {
    /// The proxy through which services are probed.
    pub proxy: ProxyEndpoint,
    /// The credential for the directory, if there is one.
    pub credential: Option<String>,
}

/// What a `Config` holds, as mathematical values.
pub ghost struct ConfigView {
    pub proxy: EndpointView,
    pub credential: Option<Seq<char>>,
}

impl View for Config {
    type V = ConfigView;

    open spec fn view(&self) -> ConfigView {
        ConfigView {
            proxy: self.proxy@,
            credential: match self.credential {
                Some(token) => Some(token@),
                None => None,
            },
        }
    }
}

/// The configuration that the settings give: the proxy that the proxy
/// setting names, or the default proxy where there is no such setting, and
/// the credential as it is.
pub open spec fn config_of(proxy: Option<Seq<char>>, credential: Option<Seq<char>>) -> ConfigView {
    ConfigView {
        proxy: endpoint_of(
            match proxy {
                Some(setting) => setting,
                None => DEFAULT_PROXY@,
            },
        ),
        credential,
    }
}

/// The value of the authorization header for a credential.
pub open spec fn bearer(token: Seq<char>) -> Seq<char> {
    "Bearer "@ + token
}

impl Config {
    /// The configuration that the settings give.
    pub fn from_settings(proxy: Option<&str>, credential: Option<String>) -> (config: Config)
        ensures
            config@ == config_of(
                match proxy {
                    Some(setting) => Some(setting@),
                    None => None,
                },
                match credential {
                    Some(token) => Some(token@),
                    None => None,
                },
            ),
    {
        Config { proxy: ProxyEndpoint::from_setting(proxy), credential }
    }

    /// The value of the authorization header for requests to the directory:
    /// none without a credential.
    pub fn authorization(&self) -> (header: Option<String>)
        ensures
            match header {
                Some(value) => self@.credential is Some && value@ == bearer(self@.credential->0),
                None => self@.credential is None,
            },
    {
        match &self.credential {
            Some(token) => Some(String::from_str("Bearer ").concat(token.as_str())),
            None => None,
        }
    }
}

} // verus!
