//! Session support for a TLS-tunnelling forward proxy: backend endpoint
//! selection, credential digests and a per-domain DNS answer cache.

pub mod addr;
pub mod clock;
pub mod dns_cache;
pub mod config;
pub mod digest;
pub mod logging;
