//! A client library for the CAT monitoring protocol: the message model, the
//! binary wire encoding, local aggregation of transactions, events and
//! metrics, the message tree of a thread, and routing decisions.
use vstd::prelude::*;

pub mod aggregator_event;
pub mod aggregator_metric;
pub mod aggregator_transaction;
pub mod buffer;
pub mod config;
pub mod consts;
pub mod context;
pub mod decimal;
pub mod encoder;
pub mod header;
pub mod keyed;
pub mod manager;
pub mod message;
pub mod router;
pub mod scheduler;
pub mod sender;
pub mod text;
pub mod transaction;
pub mod utils;

verus! {

} // verus!
