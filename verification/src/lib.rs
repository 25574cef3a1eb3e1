//! An interception pipeline for a man-in-the-middle HTTP proxy: ordered chains
//! of processors applied to every outbound request and inbound response.

pub mod message;
pub mod processor;
pub mod chain;
pub mod pipeline;
pub mod text;
pub mod filter;
pub mod logger;
pub mod laws;
