//! The core of a desktop client for a video portal: the store of the
//! authenticated session, the login flow over a browser surface, the
//! aggregation of the portal's paginated catalog of streams, and the
//! resolution of a stream's manifest.
//!
//! The library decides and the caller performs. Nothing here opens a
//! window, sleeps or talks to the network: a function takes what was seen
//! (a look at the login surface, the answer of a service) and hands back
//! what is to be done next, with a contract that says exactly what. The
//! only calls that leave the library are those of `clock`, which reads
//! dates and the system clock with `chrono`.

pub mod catalog;
pub mod clock;
pub mod error;
pub mod login;
pub mod manifest;
pub mod request;
pub mod session;
pub mod text;
