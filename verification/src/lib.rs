//! A single-shot stub resolver engine for DNS: wire codec, stream framing,
//! attempt scheduling and response validation, with machine-checked contracts.

pub mod error;
pub mod name;
pub mod message;
pub mod decode;
pub mod query;
pub mod interpret;
pub mod transport;
pub mod scheduler;
pub mod rtype;
pub mod ttl;
