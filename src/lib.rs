//! Resolution, installation planning and content caching for remote modules.
//!
//! The library holds the decisions: which registry version a range selects,
//! which install tasks run and which are collapsed as duplicates, where a
//! fetched resource lives on disk, which redirects are remembered, and how a
//! loaded module's kind is determined. The caller performs the I/O.
pub mod specifier;
pub mod resolver;
pub mod installer;
pub mod cache;
pub mod loader;
pub mod tarball;
