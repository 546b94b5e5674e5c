//! Core of a credential-switching tool for two downstream AI clients: a
//! failover reverse proxy (provider ordering, credential extraction, header
//! rewriting, retry bookkeeping), a mode switch controller that generates the
//! on-disk client configurations, and the pure half of a sandboxed
//! usage-script executor (request-descriptor parsing and result validation).
//!
//! Everything here is pure logic over plain values; the network listener, the
//! outbound HTTP calls, the script interpreter and the settings store live in
//! the surrounding application.

pub mod credentials;
pub mod failover;
pub mod headers;
pub mod json;
pub mod mode;
pub mod model;
pub mod routing;
pub mod server;
pub mod store_prefs;
pub mod text;
pub mod usage;
