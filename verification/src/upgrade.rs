//! Looking for a newer version of the tool itself.

use vstd::prelude::*;
use vstd::string::*;
use crate::errors::CliError;
use crate::storage::artifactory::{no_versions_text, trim_slashes, trimmed};

verus! {

/// Whether a text is a semantic version.
pub uninterp spec fn semver_valid(text: Seq<char>) -> bool;

/// How a semantic version is written once it was read.
pub uninterp spec fn semver_display(text: Seq<char>) -> Seq<char>;

/// Whether the semantic version `a` is greater than `b` in the order of
/// `semver::Version`. It is false where one of the two is no semantic version.
pub uninterp spec fn semver_newer(a: Seq<char>, b: Seq<char>) -> bool;

/// Reads a version with `semver::Version::parse` and writes it back with its
/// `to_string`. Trusted: whether the text is accepted, and what is written,
/// depend on the text alone.
#[verifier::external_body]
fn read_semver(text: &str) -> (r: Option<String>)
    ensures
        r is Some == semver_valid(text@),
        r matches Some(s) ==> s@ == semver_display(text@),
{
    match semver::Version::parse(text) {
        Ok(v) => Some(v.to_string()),
        Err(_) => None,
    }
}

/// Compares two versions with the order of `semver::Version`, after reading each
/// with `semver::Version::parse`. Trusted: the answer depends on the two texts
/// alone.
#[verifier::external_body]
fn newer_semver(a: &str, b: &str) -> (r: bool)
    ensures
        r == semver_newer(a@, b@),
{
    match (semver::Version::parse(a), semver::Version::parse(b)) {
        (Ok(x), Ok(y)) => x > y,
        _ => false,
    }
}

/// The newest release of the tool, as the store advertises it.
#[derive(Debug, PartialEq, Eq)]
pub struct LatestLal {
    /// The address of the newest tarball.
    pub url: String,
    /// The newest version.
    pub version: String,
}

/// The entry that stands for the newest version among the first `n` entries of a
/// listing: entries are trimmed of `/`, those that are no semantic version are
/// passed over, and a later entry replaces the one held unless the one held is
/// greater.
pub open spec fn newest_entry(uris: Seq<String>, n: int) -> Option<Seq<char>>
    decreases n,
{
    if n <= 0 {
        None
    } else {
        let entry = trimmed(uris[n - 1]@);
        match newest_entry(uris, n - 1) {
            None => if semver_valid(entry) {
                Some(entry)
            } else {
                None
            },
            Some(held) => if semver_valid(entry) && !semver_newer(held, entry) {
                Some(entry)
            } else {
                Some(held)
            },
        }
    }
}

/// Where the tarball of a version of the tool lies.
pub open spec fn tool_url(version: Seq<char>) -> Seq<char> {
    "https://engci-maven.cisco.com/artifactory/CME-group/lal/"@ + version + "/lal.tar.gz"@
}

/// Puts the answer together from the newest entry as it is written back.
pub fn latest_from(version: String) -> (r: LatestLal)
    ensures
        r.version == version,
        r.url@ == tool_url(version@),
{
    let mut url = String::from_str("https://engci-maven.cisco.com/artifactory/CME-group/lal/");
    url.append(version.as_str());
    url.append("/lal.tar.gz");
    LatestLal { url, version }
}

/// Finds the newest version of the tool in a listing of the store. `uris` holds
/// the `uri` of each child of the listing. A listing without any semantic version
/// is a `BackendFailure`.
pub fn get_latest_lal_version(uris: &Vec<String>) -> (r: Result<LatestLal, CliError>)
    ensures
        match r {
            Ok(l) => newest_entry(uris@, uris@.len() as int) matches Some(entry) && l.version@ == semver_display(entry)
                && l.url@ == tool_url(l.version@),
            Err(e) => newest_entry(uris@, uris@.len() as int) is None && (e matches CliError::BackendFailure(text)
                && text@ == no_versions_text()),
        },
{
    let mut held: Option<(&str, String)> = None;
    let mut i: usize = 0;
    while i < uris.len()
        invariant
            i <= uris@.len(),
            match held {
                Some((h, shown)) => newest_entry(uris@, i as int) == Some(h@) && shown@ == semver_display(h@),
                None => newest_entry(uris@, i as int) is None,
            },
        decreases uris@.len() - i,
    {
        let entry = trim_slashes(uris[i].as_str());
        match read_semver(entry) {
            Some(shown) => {
                let replace = match &held {
                    None => true,
                    Some((h, _)) => !newer_semver(h, entry),
                };
                if replace {
                    held = Some((entry, shown));
                }
            },
            None => {},
        }
        i += 1;
    }
    match held {
        None => Err(CliError::BackendFailure(String::from_str("No version information found on API"))),
        Some((_, shown)) => Ok(latest_from(shown)),
    }
}

/// What to do about the version of the tool that runs.
#[derive(Debug, PartialEq, Eq)]
pub enum UpgradeAction {
    /// Download the binary at `uri` into the prefix and make it executable.
    Install {
        /// Where the binary lies.
        uri: String,
    },
    /// A newer version exists; tell the user to run the upgrade.
    AdviseUpgrade,
    /// A newer version exists; tell the user to rebuild from source.
    AdviseRebuild,
    /// Nothing newer exists; `silent` says whether to keep quiet about it.
    UpToDate {
        /// Whether to say so only in the debug log.
        silent: bool,
    },
}

/// Where the binary of a version of the tool lies: `<artifactory>/lal/<latest>/lal`.
pub open spec fn binary_url(artifactory: Seq<char>, latest: Seq<char>) -> Seq<char> {
    artifactory + "/lal/"@ + latest + "/lal"@
}

/// Decides what to do, given whether the latest version is newer than the one
/// that runs. A statically linked build can install the new binary, unless this is
/// a dry run; a build from source is left to its user.
pub fn upgrade_action(is_newer: bool, artifactory: &str, latest: &str, statically_linked: bool, dry_run: bool, silent: bool) -> (r:
    UpgradeAction)
    ensures
        match r {
            UpgradeAction::Install { uri } => is_newer && statically_linked && !dry_run && uri@ == binary_url(
                artifactory@,
                latest@,
            ),
            UpgradeAction::AdviseUpgrade => is_newer && statically_linked && dry_run,
            UpgradeAction::AdviseRebuild => is_newer && !statically_linked,
            UpgradeAction::UpToDate { silent: s } => !is_newer && s == silent,
        },
{
    if is_newer {
        if statically_linked {
            if dry_run {
                UpgradeAction::AdviseUpgrade
            } else {
                let mut uri = String::from_str(artifactory);
                uri.append("/lal/");
                uri.append(latest);
                uri.append("/lal");
                UpgradeAction::Install { uri }
            }
        } else {
            UpgradeAction::AdviseRebuild
        }
    } else {
        UpgradeAction::UpToDate { silent }
    }
}

/// Checks whether `latest` is newer than `current`, the version that runs, and
/// decides what to do about it.
pub fn upgrade(artifactory: &str, latest: &str, current: &str, statically_linked: bool, dry_run: bool, silent: bool) -> (r:
    UpgradeAction)
    ensures
        match r {
            UpgradeAction::Install { uri } => semver_newer(latest@, current@) && statically_linked && !dry_run && uri@
                == binary_url(artifactory@, latest@),
            UpgradeAction::AdviseUpgrade => semver_newer(latest@, current@) && statically_linked && dry_run,
            UpgradeAction::AdviseRebuild => semver_newer(latest@, current@) && !statically_linked,
            UpgradeAction::UpToDate { silent: s } => !semver_newer(latest@, current@) && s == silent,
        },
{
    let is_newer = newer_semver(latest, current);
    upgrade_action(is_newer, artifactory, latest, statically_linked, dry_run, silent)
}

} // verus!
