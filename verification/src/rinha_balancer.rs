//! The selector as one value: the two upstream descriptors and their health,
//! carried together.
//!
//! The rule is the same strict default preference as the free-standing
//! selector; this shape exists for code that wants to pass the whole
//! balancing state around as one object.

use crate::rinha_ambulance::{HealthView, Upstream, UpstreamType};
use vstd::prelude::*;

verus! {

/// The two processors, by preference.
#[derive(Clone, Copy, PartialEq, Eq, Hash, Debug, Structural)]
pub enum Processor {
    Default,
    Fallback,
}

/// The balancing state: both upstream descriptors and their health view.
pub struct Balancer {
    pub default_upstream: Upstream,
    pub fallback_upstream: Upstream,
    pub health: HealthView,
}

impl Balancer {
    /// Each descriptor carries its own role.
    pub open spec fn wf(&self) -> bool {
        &&& self.default_upstream.kind == UpstreamType::Default
        &&& self.fallback_upstream.kind == UpstreamType::Fallback
    }

    /// A fresh balancer: nothing known, nothing healthy.
    pub fn new(default_upstream: Upstream, fallback_upstream: Upstream) -> (r: Balancer)
        requires
            default_upstream.kind == UpstreamType::Default,
            fallback_upstream.kind == UpstreamType::Fallback,
        ensures
            r.wf(),
            r.default_upstream.addr@ == default_upstream.addr@,
            r.fallback_upstream.addr@ == fallback_upstream.addr@,
            !r.health.default_healthy,
            !r.health.fallback_healthy,
    {
        Balancer {
            default_upstream,
            fallback_upstream,
            health: HealthView::new(),
        }
    }

    /// The strict default-preferred pick: the default upstream iff its slot
    /// is healthy, else the fallback iff its slot is, else nothing.
    pub fn select(&self) -> (r: Option<&Upstream>)
        ensures
            (match r {
                Some(u) => if self.health.default_healthy {
                    *u == self.default_upstream
                } else {
                    self.health.fallback_healthy && *u == self.fallback_upstream
                },
                None => !self.health.default_healthy && !self.health.fallback_healthy,
            }),
    {
        if self.health.default_healthy {
            Some(&self.default_upstream)
        } else if self.health.fallback_healthy {
            Some(&self.fallback_upstream)
        } else {
            None
        }
    }

    /// Whether this upstream's slot is healthy.
    pub fn is_healthy(&self, upstream: &Upstream) -> (r: bool)
        ensures
            r == self.health.healthy(upstream.kind),
    {
        match upstream.kind {
            UpstreamType::Default => self.health.default_healthy,
            UpstreamType::Fallback => self.health.fallback_healthy,
        }
    }

    /// Writes one slot and answers what stood there before.
    pub fn set_health(&mut self, kind: UpstreamType, value: bool) -> (prev: bool)
        ensures
            prev == old(self).health.healthy(kind),
            final(self).health.healthy(kind) == value,
            forall|k: UpstreamType|
                k != kind ==> final(self).health.healthy(k) == old(self).health.healthy(k),
            final(self).default_upstream == old(self).default_upstream,
            final(self).fallback_upstream == old(self).fallback_upstream,
    {
        match kind {
            UpstreamType::Default => {
                let prev = self.health.default_healthy;
                self.health.default_healthy = value;
                prev
            },
            UpstreamType::Fallback => {
                let prev = self.health.fallback_healthy;
                self.health.fallback_healthy = value;
                prev
            },
        }
    }

    /// Both descriptors, default first.
    pub fn get_backends(&self) -> (r: (&Upstream, &Upstream))
        ensures
            *r.0 == self.default_upstream,
            *r.1 == self.fallback_upstream,
    {
        (&self.default_upstream, &self.fallback_upstream)
    }
}

} // verus!
