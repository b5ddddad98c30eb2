//! The errors that the library reports.

use vstd::prelude::*;
use crate::version::VersionSpec;

verus! {

/// Why an operation failed.
#[derive(Debug, PartialEq, Eq)]
pub enum CliError {
    /// The transport failed: connection, name lookup or TLS.
    NetworkFailure(String),
    /// The remote store answered with something malformed or empty.
    BackendFailure(String),
    /// A publish was answered with a status other than "created".
    UploadFailure(String),
    /// A publish was attempted without credentials.
    MissingBackendCredentials,
    /// A named component is absent where it is required.
    MissingComponent(String),
    /// At least one dependency of a multi-fetch failed.
    InstallFailure,
    /// The input tree lacks a dependency.
    MissingDependency(String),
    /// A dependency is installed at another version than the declared one: name,
    /// declared, installed.
    VersionMismatch(String, VersionSpec, VersionSpec),
    /// A dependency was built in another environment: name, wanted, found.
    EnvironmentMismatch(String, String, String),
    /// A dependency is installed from a stash where only releases are allowed.
    StashNotAllowed(String),
    /// A component name holds upper-case letters.
    InvalidComponentName(String),
    /// No environment was given where one is required.
    EnvironmentUnspecified,
    /// There is no configuration.
    MissingConfig,
    /// The configuration defines an environment under a reserved name.
    InvalidEnvironment,
    /// The configuration knows no environment of this name.
    MissingEnvironment(String),
    /// A child process ended with this code.
    SubprocessFailure(i32),
}

} // verus!
