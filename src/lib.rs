//! A concurrent HTTP load-testing engine: virtual users run a fixed sequence of
//! requests in rounds, and the rounds are folded into windowed metrics.
use vstd::prelude::*;

pub mod display;
pub mod performance;
pub mod request;
pub mod signal;
pub mod time;
pub mod window;

pub use display::{
    keep_refreshing, remaining_budget, window_bounds, DisplayWindow, ReceiveOutcome,
};
pub use performance::{
    run_round_and_report, ApiPerformance, CallOutcome, LoadTestDefinition, ResponseTiming,
};
pub use request::{
    endpoint_url, HTTPClient, RequestDefinition, RequestError, StatusCodeGroup, TimedResponse,
};
pub use signal::{worker_continues, ApiPerformanceCommunicator, KillSwitch};
pub use time::{ResponseTimestamp, TimeSpan};
pub use window::{LastResponses, WindowEntry};

verus! {

} // verus!
