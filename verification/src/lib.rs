//! Metra: the verified core of a resumable, multi-lane file transfer platform.

pub mod agreement;
pub mod api;
pub mod bench;
pub mod bytes;
pub mod certificate;
pub mod checkpoint;
pub mod cli;
pub mod codec;
pub mod finalize;
pub mod ids;
pub mod lane_policy;
pub mod messages;
pub mod metrics;
pub mod policy;
pub mod ranges;
pub mod receive;
pub mod rest;
pub mod runtime_policy;
pub mod send;
pub mod session;
pub mod state;
pub mod telemetry;
pub mod text;
pub mod throughput;
pub mod transport;
pub mod tui;
pub mod tune;
pub mod upload;
pub mod wire;
