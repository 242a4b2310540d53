//! Upstream health: the shared two-slot view, probe application, in-band
//! demotion, and the health state machine.
//!
//! There are exactly two upstreams, so the health view is one boolean slot
//! per kind; an upstream nothing is known about counts as not healthy.  The
//! periodic probe itself is outside work: the application issues the two
//! `GET /payments/service-health` calls and hands the answer bodies to
//! [`check`].

use crate::rinha_domain::Health;
use crate::rinha_json::{parse_health, parse_health_spec};
use vstd::prelude::*;

verus! {

/// The two upstream processors.
#[derive(Clone, Copy, PartialEq, Eq, Hash, Debug, Structural)]
pub enum UpstreamType {
    Default,
    Fallback,
}

/// An upstream processor: its role and its address as `host:port` text.
/// Identity is the address.
pub struct Upstream {
    pub kind: UpstreamType,
    pub addr: Vec<u8>,
}

impl Upstream {
    pub fn new(kind: UpstreamType, addr: Vec<u8>) -> (r: Upstream)
        ensures
            r.kind == kind,
            r.addr@ == addr@,
    {
        Upstream { kind, addr }
    }
}

impl PartialEq for Upstream {
    fn eq(&self, other: &Self) -> (r: bool) {
        crate::rinha_domain::bytes_eq(self.addr.as_slice(), other.addr.as_slice())
    }
}

impl vstd::std_specs::cmp::PartialEqSpecImpl for Upstream {
    open spec fn obeys_eq_spec() -> bool {
        true
    }

    open spec fn eq_spec(&self, other: &Self) -> bool {
        self.addr@ == other.addr@
    }
}

/// Health of the two upstreams, one slot each.
#[derive(Clone, Copy, PartialEq, Eq, Structural, Debug)]
pub struct HealthView {
    pub default_healthy: bool,
    pub fallback_healthy: bool,
}

impl HealthView {
    /// The slot for `kind`.
    pub open spec fn healthy(self, kind: UpstreamType) -> bool {
        match kind {
            UpstreamType::Default => self.default_healthy,
            UpstreamType::Fallback => self.fallback_healthy,
        }
    }

    /// At the start nothing is known, so nothing is healthy.
    pub fn new() -> (r: HealthView)
        ensures
            !r.default_healthy,
            !r.fallback_healthy,
    {
        HealthView { default_healthy: false, fallback_healthy: false }
    }
}

/// The selection rule, default-preferred and strict: `Default` iff the
/// default slot is healthy; else `Fallback` iff the fallback slot is healthy;
/// else nothing.
pub fn select(h: &HealthView) -> (r: Option<UpstreamType>)
    ensures
        r == (if h.default_healthy {
            Some(UpstreamType::Default)
        } else if h.fallback_healthy {
            Some(UpstreamType::Fallback)
        } else {
            None::<UpstreamType>
        }),
{
    if h.default_healthy {
        Some(UpstreamType::Default)
    } else if h.fallback_healthy {
        Some(UpstreamType::Fallback)
    } else {
        None
    }
}

/// What one probe cycle writes: each slot becomes the negation of the
/// `failing` bit its upstream's answer carried.
pub fn apply_check(h: &mut HealthView, default_health: Health, fallback_health: Health)
    ensures
        final(h).default_healthy == !default_health.failing,
        final(h).fallback_healthy == !fallback_health.failing,
{
    h.default_healthy = !default_health.failing;
    h.fallback_healthy = !fallback_health.failing;
}

/// Writes one upstream's slot and leaves the other alone.  Dispatchers call
/// this with `false` to demote after a server-class failure.
pub fn set_health(h: &mut HealthView, kind: UpstreamType, value: bool)
    ensures
        final(h).healthy(kind) == value,
        forall|k: UpstreamType| k != kind ==> final(h).healthy(k) == old(h).healthy(k),
{
    match kind {
        UpstreamType::Default => {
            h.default_healthy = value;
        },
        UpstreamType::Fallback => {
            h.fallback_healthy = value;
        },
    }
}

/// Why a single probe attempt's answer could not be used.
#[derive(Clone, Copy, PartialEq, Eq, Structural, Debug)]
pub enum TryCheckError {
    /// The request never produced a body.
    Transport,
    /// The body is not a health object.
    MalformedBody,
}

/// The verified tail of one probe attempt: reads the answer's body.  The
/// HTTP `GET` itself is the application's work.
pub fn try_check(body: &[u8]) -> (r: Result<Health, TryCheckError>)
    ensures
        (match r {
            Ok(h) => parse_health_spec(body@) == Some(h.failing),
            Err(e) => parse_health_spec(body@) is None && e == TryCheckError::MalformedBody,
        }),
{
    match parse_health(body) {
        Some(h) => Ok(h),
        None => Err(TryCheckError::MalformedBody),
    }
}

/// Why a probe cycle changed nothing.
#[derive(Clone, Copy, PartialEq, Eq, Structural, Debug)]
pub enum CheckError {
    /// An upstream could not be asked at all.
    UpstreamFailed,
    /// An answer body could not be read.
    TrialError(TryCheckError),
}

/// One probe cycle over both answer bodies.  Both must be readable; then
/// each slot becomes `!failing`.  A cycle that cannot read both bodies
/// leaves the whole view standing, so a flapping network never demotes.
pub fn check(h: &mut HealthView, default_body: &[u8], fallback_body: &[u8]) -> (r: Result<
    (),
    CheckError,
>)
    ensures
        (match r {
            Ok(()) => {
                &&& parse_health_spec(default_body@) == Some(!final(h).default_healthy)
                &&& parse_health_spec(fallback_body@) == Some(!final(h).fallback_healthy)
            },
            Err(e) => {
                &&& *final(h) == *old(h)
                &&& (parse_health_spec(default_body@) is None || parse_health_spec(
                    fallback_body@,
                ) is None)
                &&& e == CheckError::TrialError(TryCheckError::MalformedBody)
            },
        }),
{
    let d = try_check(default_body);
    let f = try_check(fallback_body);
    match (d, f) {
        (Ok(dh), Ok(fh)) => {
            apply_check(h, dh, fh);
            Ok(())
        },
        (Err(e), _) => Err(CheckError::TrialError(e)),
        (_, Err(e)) => Err(CheckError::TrialError(e)),
    }
}

/// Builds the two immutable upstream descriptors from their resolved
/// addresses.  Resolving the addresses is the application's work.
pub fn bootstrap(default_addr: Vec<u8>, fallback_addr: Vec<u8>) -> (r: (Upstream, Upstream))
    ensures
        r.0.kind == UpstreamType::Default,
        r.0.addr@ == default_addr@,
        r.1.kind == UpstreamType::Fallback,
        r.1.addr@ == fallback_addr@,
{
    (
        Upstream::new(UpstreamType::Default, default_addr),
        Upstream::new(UpstreamType::Fallback, fallback_addr),
    )
}

/// One upstream's health over time.
#[derive(Clone, Copy, PartialEq, Eq, Structural, Debug)]
pub enum HealthState {
    Unknown,
    Healthy,
    Unhealthy,
}

/// What can move an upstream's health.
#[derive(Clone, Copy, PartialEq, Eq, Structural, Debug)]
pub enum HealthEvent {
    /// A probe answer was read; the payload is its `failing` bit.
    ProbeResult(bool),
    /// A dispatch met a server-class failure.
    DispatchServerFailure,
}

/// The transition rule: a probe sets the state from its `failing` bit; a
/// dispatch failure demotes.
pub open spec fn spec_health_transition(s: HealthState, e: HealthEvent) -> HealthState {
    match e {
        HealthEvent::ProbeResult(failing) => if failing {
            HealthState::Unhealthy
        } else {
            HealthState::Healthy
        },
        HealthEvent::DispatchServerFailure => HealthState::Unhealthy,
    }
}

pub fn health_transition(s: HealthState, e: HealthEvent) -> (r: HealthState)
    ensures
        r == spec_health_transition(s, e),
{
    match e {
        HealthEvent::ProbeResult(failing) => if failing {
            HealthState::Unhealthy
        } else {
            HealthState::Healthy
        },
        HealthEvent::DispatchServerFailure => HealthState::Unhealthy,
    }
}

/// Only a probe that read `failing: false` ever makes an upstream healthy:
/// dispatchers demote, never promote, and there is no self-recovery.
pub proof fn lemma_only_probe_promotes(s: HealthState, e: HealthEvent)
    ensures
        spec_health_transition(s, e) == HealthState::Healthy <==> e == HealthEvent::ProbeResult(
            false,
        ),
{
}

} // verus!
