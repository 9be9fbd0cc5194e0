//! Management of versioned, git- or filesystem-backed problem definitions
//! and of the labeled container images and containers built from them: a
//! repository synchronization protocol that refuses updates which would
//! orphan built artifacts, problem-list resolution and manifest
//! solidification, and label-scoped classification and querying of daemon
//! resources. The daemon transport, version-control primitives and CLI live
//! outside this crate and hand it plain values.

pub mod docker;
pub mod error;
pub mod repo;
pub mod repository;
pub mod strutil;
