//! Verified core of a small payments gateway.
//!
//! The library holds the gateway's decision logic: the payment data model and
//! its JSON wire format, the time-indexed store and its summaries, the bounded
//! hand-off queue, upstream health tracking and selection, the dispatch state
//! machine with its retry backoff, and HTTP request routing.  All network and
//! timer work stays outside, in the surrounding application, which feeds this
//! library plain values and carries its answers back onto the wire.

pub mod rinha_ambulance;
pub mod rinha_balancer;
pub mod rinha_chan;
pub mod rinha_conf;
pub mod rinha_domain;
pub mod rinha_http;
pub mod rinha_json;
pub mod rinha_net;
pub mod rinha_num;
pub mod rinha_storage;
pub mod rinha_time;
pub mod rinha_worker;
