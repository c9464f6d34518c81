//! Dynamic DNS synchronization engine: interface address discovery and
//! selection, the per-site retry state machine, and the record protocol that
//! keeps one remote DNS record equal to a local address.

pub mod address;
pub mod aliyun;
pub mod config;
pub mod dynv6;
pub mod error;
pub mod record;
pub mod request;
pub mod task;
pub mod text;
