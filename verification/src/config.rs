//! What the verified core takes over from the configuration: the fixed
//! defaults, the per-domain resolution of intervals and bind address against
//! the global settings, and the numeric selection of an IP source. Reading
//! and decoding the configuration file itself is the surrounding program's
//! work; it hands the plain values in.

use vstd::prelude::*;

use crate::error::Error;
use crate::ip::IpAddress;
use crate::source::{IpIp, IpSourceKind, LocalIPv6, Standalone};
use crate::text::{append_signed_decimal, spec_signed_decimal};

verus! {

/// The refresh interval used when neither the domain nor the global
/// configuration names one, in seconds.
pub const DEFAULT_FRESH_INTERVAL_SECONDS: u64 = 900;

/// The retry interval used when neither the domain nor the global
/// configuration names one, in seconds.
pub const DEFAULT_RETRY_INTERVAL_SECONDS: u64 = 300;

/// The refresh interval a domain runs with: its own, else the global one,
/// else the default.
pub fn effective_fresh_interval(domain: Option<u64>, global: Option<u64>) -> (r: u64)
    ensures
        r == match domain {
            Some(d) => d,
            None => match global {
                Some(g) => g,
                None => DEFAULT_FRESH_INTERVAL_SECONDS,
            },
        },
{
    match domain {
        Some(d) => d,
        None => match global {
            Some(g) => g,
            None => DEFAULT_FRESH_INTERVAL_SECONDS,
        },
    }
}

/// The retry interval a domain runs with: its own, else the global one,
/// else the default.
pub fn effective_retry_interval(domain: Option<u64>, global: Option<u64>) -> (r: u64)
    ensures
        r == match domain {
            Some(d) => d,
            None => match global {
                Some(g) => g,
                None => DEFAULT_RETRY_INTERVAL_SECONDS,
            },
        },
{
    match domain {
        Some(d) => d,
        None => match global {
            Some(g) => g,
            None => DEFAULT_RETRY_INTERVAL_SECONDS,
        },
    }
}

/// The local address a domain binds: its own, else the global one, else
/// none.
pub fn effective_bind_address(domain: Option<IpAddress>, global: Option<IpAddress>) -> (r: Option<
    IpAddress,
>)
    ensures
        r == match domain {
            Some(a) => Some(a),
            None => global,
        },
{
    match domain {
        Some(a) => Some(a),
        None => global,
    }
}

/// Builds the IP source a configuration entry selects: code 0 is the IpIp
/// lookup, code 1 the standalone server (which requires a server address),
/// code 2 the local IPv6 query (optionally bound to one interface); every
/// other code is rejected by name.
pub fn ip_source_of_code(code: i64, server: Option<String>, interface: Option<String>) -> (r:
    Result<IpSourceKind, Error>)
    ensures
        code == 0 ==> (r matches Ok(k) && k is IpIp),
        code == 1 ==> match server {
            Some(u) => (r matches Ok(k) && (k matches IpSourceKind::Standalone(s) && s.url@
                == u@)),
            None => (r matches Err(e) && e@
                == "IP \u{6765}\u{6e90}\u{65b9}\u{5f0f} 1(\u{72ec}\u{7acb}\u{670d}\u{52a1}\u{5668}) \u{5fc5}\u{987b}\u{6307}\u{5b9a}\u{670d}\u{52a1}\u{5668}\u{8bbf}\u{95ee}\u{5730}\u{5740}"@),
        },
        code == 2 ==> (r matches Ok(k) && (k matches IpSourceKind::LocalIPv6(l) && l.0
            == interface)),
        !(code == 0 || code == 1 || code == 2) ==> (r matches Err(e) && e@
            == "\u{4e0d}\u{652f}\u{6301}\u{7684} IP \u{6765}\u{6e90}\u{65b9}\u{5f0f}\u{ff1a}"@ + spec_signed_decimal(code as int)),
{
    if code == 0 {
        Ok(IpSourceKind::IpIp(IpIp::new()))
    } else if code == 1 {
        match server {
            Some(u) => Ok(IpSourceKind::Standalone(Standalone::new(u))),
            None => Err(
                Error::new_str("IP \u{6765}\u{6e90}\u{65b9}\u{5f0f} 1(\u{72ec}\u{7acb}\u{670d}\u{52a1}\u{5668}) \u{5fc5}\u{987b}\u{6307}\u{5b9a}\u{670d}\u{52a1}\u{5668}\u{8bbf}\u{95ee}\u{5730}\u{5740}"),
            ),
        }
    } else if code == 2 {
        Ok(IpSourceKind::LocalIPv6(LocalIPv6::new(interface)))
    } else {
        let mut m = "\u{4e0d}\u{652f}\u{6301}\u{7684} IP \u{6765}\u{6e90}\u{65b9}\u{5f0f}\u{ff1a}".to_owned();
        append_signed_decimal(&mut m, code);
        Err(Error::new_string(m))
    }
}

} // verus!
