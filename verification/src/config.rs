//! The ports of the two listeners, fixed once at startup.

use crate::decimal::{parse_port, port_of_text};
use vstd::prelude::*;

verus! {

/// The port of the HTTP listener when none is configured.
pub const DEFAULT_HTTP_PORT: u16 = 8000;

/// The port of the push channel when none is configured.
pub const DEFAULT_WS_PORT: u16 = 8001;

/// The configuration that every component reads.
#[derive(Clone, Copy, Debug, PartialEq, Eq, Structural)]
pub struct Config {
    /// Port of the HTTP listener.
    pub http_port: u16,
    /// Port of the push channel; the reload snippet embeds it.
    pub ws_port: u16,
}

/// The port that a setting gives: the default where it is unset, else the
/// port that its text writes, if it writes one.
pub open spec fn setting_port(setting: Option<Seq<char>>, default: u16) -> Option<u16> {
    match setting {
        None => Some(default),
        Some(text) => port_of_text(text),
    }
}

/// The view of a setting.
pub open spec fn setting_view(setting: Option<&str>) -> Option<Seq<char>> {
    match setting {
        Some(text) => Some(text@),
        None => None,
    }
}

/// The port that a setting gives, `None` where it is set to something that
/// is no port number.
pub fn port_setting(setting: Option<&str>, default: u16) -> (port: Option<u16>)
    ensures
        port == setting_port(setting_view(setting), default),
{
    match setting {
        None => Some(default),
        Some(text) => parse_port(text),
    }
}

impl Config {
    /// A configuration from the two settings as text, each unset or the
    /// decimal text of a port; `None` where one of them is set to something
    /// else.
    pub fn from_settings(http_port: Option<&str>, ws_port: Option<&str>) -> (config: Option<Config>)
        ensures
            config == (match (
                setting_port(setting_view(http_port), DEFAULT_HTTP_PORT),
                setting_port(setting_view(ws_port), DEFAULT_WS_PORT),
            ) {
                (Some(http), Some(ws)) => Some(Config { http_port: http, ws_port: ws }),
                _ => None,
            }),
    {
        match port_setting(http_port, DEFAULT_HTTP_PORT) {
            None => None,
            Some(http) => match port_setting(ws_port, DEFAULT_WS_PORT) {
                None => None,
                Some(ws) => Some(Config { http_port: http, ws_port: ws }),
            },
        }
    }

    /// A configuration from the ports that were set; an unset port takes its
    /// default.
    pub fn new(http_port: Option<u16>, ws_port: Option<u16>) -> (config: Config)
        ensures
            config.http_port == (match http_port {
                Some(p) => p,
                None => DEFAULT_HTTP_PORT,
            }),
            config.ws_port == (match ws_port {
                Some(p) => p,
                None => DEFAULT_WS_PORT,
            }),
    {
        let http_port = match http_port {
            Some(p) => p,
            None => DEFAULT_HTTP_PORT,
        };
        let ws_port = match ws_port {
            Some(p) => p,
            None => DEFAULT_WS_PORT,
        };
        Config { http_port, ws_port }
    }
}

impl Default for Config {
    fn default() -> (config: Config)
        ensures
            config.http_port == DEFAULT_HTTP_PORT,
            config.ws_port == DEFAULT_WS_PORT,
    {
        Config { http_port: DEFAULT_HTTP_PORT, ws_port: DEFAULT_WS_PORT }
    }
}

} // verus!
