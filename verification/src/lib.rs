//! Dependency resolution, caching decisions and input-tree verification for a
//! component-oriented build workflow.
//!
//! Components declare exact dependency versions in a manifest. This library holds
//! the rules that turn a manifest into a set of artifacts to fetch, decide when
//! the local cache can be used, keep the manifest up to date, check a populated
//! input tree against the manifest, and pick expired cache entries.

pub mod cache;
pub mod clean;
pub mod configure;
pub mod errors;
pub mod install;
pub mod manifest;
pub mod names;
pub mod query;
pub mod storage;
pub mod upgrade;
pub mod verify;
pub mod version;
