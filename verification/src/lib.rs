//! A stateless control layer over WebDAV resource operations.
//!
//! The crate turns raw protocol responses into structured catalogue
//! entries, applies declarative filters to directory listings, and
//! resolves per-host credentials from a small credential table.  The
//! wire calls themselves go through an injected transport, so the
//! decision logic here is independent of any particular HTTP stack.

pub mod catalogue;
pub mod creds;
pub mod davctrl;
pub mod filter;
pub mod paths;
pub mod text;
pub mod urls;
pub mod xml;
