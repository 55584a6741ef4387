//! Keeps Cloudflare DNS records in sync with the current public address of the
//! host. This crate holds the verified core: the per-domain updater state
//! machine, the response-envelope rules of the remote record protocol, textual
//! IP addresses, the address-selection rules of the IP sources, and the
//! decision logic of both schedulers. The asynchronous plumbing around it
//! (HTTP, timers, signals, configuration files) lives outside the library and
//! drives these functions.

pub mod api;
pub mod config;
pub mod error;
pub mod ip;
pub mod scheduler;
pub mod source;
pub mod text;
pub mod updater;
