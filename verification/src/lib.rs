//! Verified core of a transparent reverse proxy that republishes a staging
//! content-management backend under a production domain.
//!
//! The library holds everything with algorithmic content: the canonical-host
//! redirect decision, target-URL construction, hop-by-hop header filtering in
//! both directions, and the conditional rewrite of the staging domain marker
//! inside HTML bodies. All of it works on plain byte vectors; the surrounding
//! HTTP server and client hand bytes in and take bytes out.

pub mod bytes;
pub mod headers;
pub mod pipeline;
pub mod redirect;
pub mod rewrite;
