//! What the command line settles: the judging of a port, the choice of a
//! delay, and the one server that flags describe.

use vstd::prelude::*;
use crate::config::{DelayOptions, PlaybackServerConfig, ProxyServerConfig};
use crate::text::{parse_u16, parsed_u16};

verus! {

/// The servers that a command line asks for.
pub enum CliConfig {
    Proxy(Vec<ProxyServerConfig>),
    Playback(Vec<PlaybackServerConfig>),
}

/// What is said of a port that is no number.
pub open spec fn not_a_port() -> Seq<char> {
    "Port must be an integer in range 1-65535"@
}

/// What is said of port zero.
pub open spec fn port_zero() -> Seq<char> {
    "Port must be in range 1-65535"@
}

/// Judges the text of a port: it must write a number from 1 to 65535.
pub fn port_validator(v: String) -> (r: Result<(), String>)
    ensures
        match r {
            Ok(()) => parsed_u16(v@) matches Some(port) && port != 0,
            Err(message) => match parsed_u16(v@) {
                None => message@ == not_a_port(),
                Some(port) => port == 0 && message@ == port_zero(),
            },
        },
{
    match parse_u16(v.as_str()) {
        None => Err(String::from_str("Port must be an integer in range 1-65535")),
        Some(port) => if port == 0 {
            Err(String::from_str("Port must be in range 1-65535"))
        } else {
            Ok(())
        },
    }
}

/// The delay that the flags of a command line ask for: the recorded one
/// where that is asked for, else a fixed one where a time is given, else none.
pub fn delay_from_flags(original_delay: bool, delay_ms: Option<u64>) -> (d: DelayOptions)
    ensures
        d == if original_delay {
            DelayOptions::Original
        } else {
            match delay_ms {
                Some(millis) => DelayOptions::Static { millis },
                None => DelayOptions::NoDelay,
            }
        },
{
    if original_delay {
        DelayOptions::Original
    } else {
        match delay_ms {
            Some(millis) => DelayOptions::Static { millis },
            None => DelayOptions::NoDelay,
        }
    }
}

/// The one recording server that a command line describes.
pub fn proxy_config_from_cli(
    recording_dir: &str,
    addr: &str,
    port: u16,
    project: &str,
    proxy_for: &str,
) -> (servers: Vec<ProxyServerConfig>)
    ensures
        servers@.len() == 1,
        servers@[0].name@ == project@,
        servers@[0].addr@ == addr@,
        servers@[0].port == port,
        servers@[0].proxy_for@ == proxy_for@,
        servers@[0].archive_path@ == recording_dir@,
        servers@[0].ignored_status_codes@ == Seq::<u16>::empty(),
{
    let mut servers: Vec<ProxyServerConfig> = Vec::new();
    servers.push(
        ProxyServerConfig::new(
            String::from_str(project),
            String::from_str(addr),
            port,
            String::from_str(proxy_for),
            String::from_str(recording_dir),
        ),
    );
    servers
}

} // verus!
