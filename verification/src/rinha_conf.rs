//! The gateway's configuration: bind and upstream addresses with their
//! defaults.
//!
//! Reading the environment is the application's work; it hands any
//! overrides in as plain values, and this module fills the gaps with the
//! documented defaults and joins each `host:port` pair.

use crate::rinha_json::push_bytes;
use vstd::prelude::*;

verus! {

/// `0.0.0.0` — the default bind host.
pub open spec fn default_host() -> Seq<u8> {
    seq![
        '0' as u8,
        '.' as u8,
        '0' as u8,
        '.' as u8,
        '0' as u8,
        '.' as u8,
        '0' as u8,
    ]
}

/// `9999` — the default bind port.
pub open spec fn default_port() -> Seq<u8> {
    seq!['9' as u8, '9' as u8, '9' as u8, '9' as u8]
}

/// `127.0.0.1` — the default upstream host, for both upstreams.
pub open spec fn default_upstream_host() -> Seq<u8> {
    seq![
        '1' as u8,
        '2' as u8,
        '7' as u8,
        '.' as u8,
        '0' as u8,
        '.' as u8,
        '0' as u8,
        '.' as u8,
        '1' as u8,
    ]
}

/// `8001` — the default port of the default upstream.
pub open spec fn default_default_port() -> Seq<u8> {
    seq!['8' as u8, '0' as u8, '0' as u8, '1' as u8]
}

/// `8002` — the default port of the fallback upstream.
pub open spec fn default_fallback_port() -> Seq<u8> {
    seq!['8' as u8, '0' as u8, '0' as u8, '2' as u8]
}

/// `host` and `port` joined as `host:port`.
pub open spec fn joined_addr(host: Seq<u8>, port: Seq<u8>) -> Seq<u8> {
    host + seq![58u8] + port
}

/// The resolved configuration: every address as `host:port` text.
pub struct Config {
    pub host: Vec<u8>,
    pub port: Vec<u8>,
    pub addr: Vec<u8>,
    pub default_upstream_addr: Vec<u8>,
    pub fallback_upstream_addr: Vec<u8>,
}

/// What an override leaves: the given value, or the default.
pub open spec fn or_default(given: Option<Vec<u8>>, dflt: Seq<u8>) -> Seq<u8> {
    match given {
        Some(v) => v@,
        None => dflt,
    }
}

fn take_or(given: Option<Vec<u8>>, dflt: Vec<u8>) -> (r: Vec<u8>)
    ensures
        r@ == or_default(given, dflt@),
{
    match given {
        Some(v) => v,
        None => dflt,
    }
}

fn join_addr(host: &Vec<u8>, port: &Vec<u8>) -> (r: Vec<u8>)
    ensures
        r@ == joined_addr(host@, port@),
{
    let mut r: Vec<u8> = Vec::new();
    push_bytes(&mut r, host.as_slice());
    r.push(58);
    push_bytes(&mut r, port.as_slice());
    proof {
        assert(r@ =~= joined_addr(host@, port@));
    }
    r
}

fn default_host_vec() -> (r: Vec<u8>)
    ensures
        r@ == default_host(),
{
    let mut v: Vec<u8> = Vec::new();
    v.push('0' as u8);
    v.push('.' as u8);
    v.push('0' as u8);
    v.push('.' as u8);
    v.push('0' as u8);
    v.push('.' as u8);
    v.push('0' as u8);
    proof {
        assert(v@ =~= default_host());
    }
    v
}

fn default_upstream_host_vec() -> (r: Vec<u8>)
    ensures
        r@ == default_upstream_host(),
{
    let mut v: Vec<u8> = Vec::new();
    v.push('1' as u8);
    v.push('2' as u8);
    v.push('7' as u8);
    v.push('.' as u8);
    v.push('0' as u8);
    v.push('.' as u8);
    v.push('0' as u8);
    v.push('.' as u8);
    v.push('1' as u8);
    proof {
        assert(v@ =~= default_upstream_host());
    }
    v
}

fn port_vec(a: u8, b: u8, c: u8, d: u8) -> (r: Vec<u8>)
    ensures
        r@ == seq![a, b, c, d],
{
    let mut v: Vec<u8> = Vec::new();
    v.push(a);
    v.push(b);
    v.push(c);
    v.push(d);
    proof {
        assert(v@ =~= seq![a, b, c, d]);
    }
    v
}

/// Resolves the configuration: every override that was given is honored,
/// every gap takes its documented default, and the three addresses are the
/// joined `host:port` pairs.
pub fn bootstrap(
    host: Option<Vec<u8>>,
    port: Option<Vec<u8>>,
    default_upstream_host_given: Option<Vec<u8>>,
    default_upstream_port: Option<Vec<u8>>,
    fallback_upstream_host_given: Option<Vec<u8>>,
    fallback_upstream_port: Option<Vec<u8>>,
) -> (r: Config)
    ensures
        r.host@ == or_default(host, default_host()),
        r.port@ == or_default(port, default_port()),
        r.addr@ == joined_addr(r.host@, r.port@),
        r.default_upstream_addr@ == joined_addr(
            or_default(default_upstream_host_given, default_upstream_host()),
            or_default(default_upstream_port, default_default_port()),
        ),
        r.fallback_upstream_addr@ == joined_addr(
            or_default(fallback_upstream_host_given, default_upstream_host()),
            or_default(fallback_upstream_port, default_fallback_port()),
        ),
{
    let host = take_or(host, default_host_vec());
    let port = take_or(port, port_vec('9' as u8, '9' as u8, '9' as u8, '9' as u8));
    let dhost = take_or(default_upstream_host_given, default_upstream_host_vec());
    let dport = take_or(default_upstream_port, port_vec('8' as u8, '0' as u8, '0' as u8, '1' as u8));
    let fhost = take_or(fallback_upstream_host_given, default_upstream_host_vec());
    let fport = take_or(fallback_upstream_port, port_vec('8' as u8, '0' as u8, '0' as u8, '2' as u8));
    let addr = join_addr(&host, &port);
    let default_upstream_addr = join_addr(&dhost, &dport);
    let fallback_upstream_addr = join_addr(&fhost, &fport);
    Config { host, port, addr, default_upstream_addr, fallback_upstream_addr }
}

} // verus!
