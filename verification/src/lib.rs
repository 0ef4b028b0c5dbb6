//! Verified core of a seat-booking client for the ZJU library reservation
//! service: request payloads, response decisions, the CAS login flow, the
//! background booking worker's decisions and the server's in-memory registries.

pub mod models;
pub mod text;
pub mod codec;
pub mod rsa;
pub mod json;
pub mod client;
pub mod login;
pub mod worker;
pub mod error;
pub mod registry;
