//! Per-core TCP traffic generator pipeline: frame model, packet mutation
//! helpers, connection state machines, connection managers and timer wheel.

pub mod cdata;
pub mod checksum;
pub mod cmanager;
pub mod connection;
pub mod laws;
pub mod machine;
pub mod packet;
pub mod pipeline;
pub mod tcp_common;
pub mod timer_wheel;
pub mod wire;
