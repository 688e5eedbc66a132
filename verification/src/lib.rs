//! Supervision of a proxy kernel and of the JSON configuration that drives it.
//!
//! The crate holds the decisions: how a configuration tree is patched along a
//! property path, which transitions the kernel supervisor allows, how a
//! download over several candidate sources proceeds and reports progress, and
//! what a release description says about an update. The caller performs the
//! I/O and hands plain values in.

pub mod codec;
pub mod config;
pub mod fetch;
pub mod json;
pub mod metrics;
pub mod routing;
pub mod storage;
pub mod supervisor;
pub mod text;
pub mod update;
