//! The local cache in front of the artifact store: where its entries lie and
//! when one can be used in place of a download.

use vstd::prelude::*;
use vstd::string::*;
use crate::errors::CliError;
use crate::names::NameMap;
use crate::version::{version_text, VersionSpec, VersionView};

verus! {

/// The directory of a cache entry. A release lies at
/// `<root>/environments/<env>/<name>/<version>`, a stash at
/// `<root>/stash/<name>/<tag>`: three levels below `<root>/environments` and below
/// `<root>`, which is where the cleaning of the cache looks for them.
pub open spec fn entry_dir(root: Seq<char>, env: Seq<char>, name: Seq<char>, version: VersionView) -> Seq<char> {
    match version {
        VersionView::Release(_) => root + "/environments/"@ + env + "/"@ + name + "/"@ + version_text(version),
        VersionView::Stash(tag) => root + "/stash/"@ + name + "/"@ + tag,
    }
}

/// The directory of the input tree that a dependency is extracted into:
/// `./INPUT/<name>`.
pub open spec fn input_dir(name: Seq<char>) -> Seq<char> {
    "./INPUT/"@ + name
}

/// Where the cache keeps, or would keep, the entry of a component.
pub fn get_entry_dir(root: &str, env: &str, name: &str, version: &VersionSpec) -> (dir: String)
    ensures
        dir@ == entry_dir(root@, env@, name@, version@),
{
    let mut dir = String::from_str(root);
    match version {
        VersionSpec::Release(_) => {
            dir.append("/environments/");
            dir.append(env);
            dir.append("/");
            dir.append(name);
            dir.append("/");
            dir.append(version.text().as_str());
        },
        VersionSpec::Stash(tag) => {
            dir.append("/stash/");
            dir.append(name);
            dir.append("/");
            dir.append(tag.as_str());
        },
    }
    dir
}

/// Where a dependency is extracted to.
pub fn get_input_dir(name: &str) -> (dir: String)
    ensures
        dir@ == input_dir(name@),
{
    let mut dir = String::from_str("./INPUT/");
    dir.append(name);
    dir
}

/// How a component gets into the input tree.
#[derive(Debug, PartialEq, Eq)]
pub enum EnsurePlan {
    /// The cache holds the entry: extract it, without any use of the network.
    Extract {
        /// The directory of the cache entry.
        entry: String,
        /// The directory to extract into.
        target: String,
    },
    /// The cache lacks the release: resolve its location, download it to a
    /// temporary place, check that it is a well-formed compressed archive, move it
    /// to the entry's directory, then extract it.
    Download {
        /// The directory that the cache entry is moved to.
        entry: String,
        /// The directory to extract into.
        target: String,
    },
}

impl EnsurePlan {
    /// Whether carrying out the plan talks to the network.
    pub open spec fn uses_network(&self) -> bool {
        self is Download
    }

    /// Whether carrying out the plan talks to the network.
    pub fn needs_network(&self) -> (b: bool)
        ensures
            b == self.uses_network(),
    {
        match self {
            EnsurePlan::Extract { .. } => false,
            EnsurePlan::Download { .. } => true,
        }
    }
}

/// Decides how the component `name` at `version` gets into the input tree, given
/// whether the cache holds its entry. A cached entry is extracted as it is. A
/// release that is not cached is downloaded. A stash is never fetched: a tag that
/// was not stashed locally is a `MissingComponent`.
pub fn plan_ensure(root: &str, env: &str, name: &str, version: &VersionSpec, cached: bool) -> (r: Result<
    EnsurePlan,
    CliError,
>)
    ensures
        match r {
            Ok(EnsurePlan::Extract { entry, target }) => cached && entry@ == entry_dir(root@, env@, name@, version@)
                && target@ == input_dir(name@),
            Ok(EnsurePlan::Download { entry, target }) => !cached && version@ is Release && entry@ == entry_dir(
                root@,
                env@,
                name@,
                version@,
            ) && target@ == input_dir(name@),
            Err(e) => !cached && version@ is Stash && (e matches CliError::MissingComponent(n) && n@ == name@),
        },
{
    if cached {
        Ok(EnsurePlan::Extract { entry: get_entry_dir(root, env, name, version), target: get_input_dir(name) })
    } else if version.is_stash() {
        Err(CliError::MissingComponent(String::from_str(name)))
    } else {
        Ok(EnsurePlan::Download { entry: get_entry_dir(root, env, name, version), target: get_input_dir(name) })
    }
}

/// The cache after an entry was written to the directory `dir`: a release that
/// the cache already holds is left as it is, anything else is put in place.
pub open spec fn stored(held: Map<Seq<char>, Seq<char>>, dir: Seq<char>, release: bool, digest: Seq<char>) -> Map<
    Seq<char>,
    Seq<char>,
> {
    if release && held.contains_key(dir) {
        held
    } else {
        held.insert(dir, digest)
    }
}

/// What the cache holds: for the directory of each entry, the digest of its
/// content.
pub struct CacheIndex {
    /// The entries by directory.
    pub held: NameMap<String>,
}

impl CacheIndex {
    /// No directory occurs twice.
    pub open spec fn wf(&self) -> bool {
        self.held.wf()
    }

    /// An empty cache.
    pub fn new() -> (c: CacheIndex)
        ensures
            c.wf(),
            c.held.map() == Map::<Seq<char>, Seq<char>>::empty(),
    {
        CacheIndex { held: NameMap::new() }
    }

    /// Decides how a component gets into the input tree, by what the cache holds.
    pub fn plan(&self, root: &str, env: &str, name: &str, version: &VersionSpec) -> (r: Result<EnsurePlan, CliError>)
        requires
            self.wf(),
        ensures
            match r {
                Ok(plan) => {
                    &&& plan.uses_network() == !self.held.map().contains_key(entry_dir(root@, env@, name@, version@))
                    &&& plan.uses_network() ==> version@ is Release
                },
                Err(e) => !self.held.map().contains_key(entry_dir(root@, env@, name@, version@)) && version@ is Stash
                    && (e matches CliError::MissingComponent(n) && n@ == name@),
            },
    {
        let dir = get_entry_dir(root, env, name, version);
        let cached = self.held.contains_key(dir.as_str());
        plan_ensure(root, env, name, version, cached)
    }

    /// Records that an entry with the given digest was moved to `dir`. A release
    /// that the cache already holds is never rewritten; a stash is overwritten.
    /// Says whether the entry was put in place.
    pub fn store(&mut self, dir: String, release: bool, digest: String) -> (written: bool)
        requires
            old(self).wf(),
        ensures
            final(self).wf(),
            final(self).held.map() == stored(old(self).held.map(), dir@, release, digest@),
            written == !(release && old(self).held.map().contains_key(dir@)),
    {
        if release && self.held.contains_key(dir.as_str()) {
            false
        } else {
            self.held.insert(dir, digest);
            true
        }
    }
}

/// A release in the cache is immutable: once an entry was stored for its
/// directory, the cache holds that directory, so that it is extracted without the
/// network, and storing it again changes neither the cache nor the content held.
pub proof fn law_cached_release_is_immutable(
    held: Map<Seq<char>, Seq<char>>,
    dir: Seq<char>,
    first: Seq<char>,
    second: Seq<char>,
)
    ensures
        stored(held, dir, true, first).contains_key(dir),
        stored(stored(held, dir, true, first), dir, true, second) == stored(held, dir, true, first),
        held.contains_key(dir) ==> stored(held, dir, true, first)[dir] == held[dir],
{
}

} // verus!
