//! The remote artifact store.

pub mod artifactory;
pub mod sorting;
