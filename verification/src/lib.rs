//! Verified core of a small telemetry-and-actuation node: register decoding for
//! its sensors, the line-protocol encoder for its samples, and the dispatcher
//! that drives its outputs.

pub mod actuation;
pub mod bus;
pub mod communications;
pub mod config;
pub mod influx;
pub mod line;
pub mod sensor;
pub mod soil;
pub mod text;
pub mod types;
pub mod util;
