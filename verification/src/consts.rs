//! Constants of the client and of the CAT wire protocol.
use vstd::prelude::*;

verus! {

pub const ROUTER_PATH: &'static str = "/cat/s/router";

pub const LOCALHOST: &'static str = "127.0.0.1";

pub const DEFAULT_APP_KEY: &'static str = "cat";
pub const DEFAULT_HOSTNAME: &'static str = "GoUnknownHost";
pub const DEFAULT_ENV: &'static str = "dev";
pub const DEFAULT_IP: &'static str = "127.0.0.1";
pub const DEFAULT_IP_HEX: &'static str = "7f000001";
pub const DEFAULT_XML_FILE: &'static str = "/data/appdatas/cat/rust-client.xml";
pub const DEFAULT_LOG_DIR: &'static str = "/data/applogs/cat";
pub const TMP_LOG_DIR: &'static str = "/tmp";

pub const TYPE_SYSTEM: &'static str = "System";
pub const NAME_REBOOT: &'static str = "Reboot";
pub const NAME_TRANSACTION_AGGREGATOR: &'static str = "TransactionAggregator";
pub const NAME_EVENT_AGGREGATOR: &'static str = "EventAggregator";
pub const NAME_METRIC_AGGREGATOR: &'static str = "MetricAggregator";

pub const PROPERTY_SAMPLE: &'static str = "sample";
pub const PROPERTY_ROUTERS: &'static str = "routers";
pub const PROPERTY_BLOCK: &'static str = "block";

pub const HIGH_PRIORITY_QUEUE_SIZE: usize = 1000;
pub const NORMAL_PRIORITY_QUEUE_SIZE: usize = 5000;

/// Status of a message that succeeded.
pub const CAT_SUCCESS: &'static str = "0";
/// Status of a message that failed.
pub const CAT_ERROR: &'static str = "-1";
/// Version tag that opens every encoded header.
pub const BINARY_PROTOCOL: &'static str = "PT1";
/// Parent and root message id of a header that has none.
pub const EMPTY_DATA: &'static str = "";

/// Opens a batch of aggregated figures.
pub const BATCH_FLAG: u8 = 64;
/// Separates the figures of a batch.
pub const BATCH_SPLIT: u8 = 59;

/// Signals that the background tasks of the client exchange.
#[derive(Clone, Copy, PartialEq, Eq, Structural, Debug)]
pub enum Signal {
    SignalResetConnection,
    SignalShutdown,
    SignalManagerExit,
    SignalSenderExit,
    SignalMonitorExit,
    SignalRouterExit,
    SignalTransactionAggregatorExit,
    SignalEventAggregatorExit,
    SignalMetricAggregatorExit,
}

} // verus!
