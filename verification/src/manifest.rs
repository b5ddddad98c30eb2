//! Components, manifests and the input tree.

use vstd::prelude::*;
use vstd::string::*;
use crate::names::{as_map, has_key, lemma_push_inserts, put_all, unique_keys, NameMap};
use crate::version::{VersionSpec, VersionView};

verus! {

/// A named, versioned artifact and the place it can be fetched from.
#[derive(Debug, PartialEq, Eq)]
pub struct Component {
    /// The component's name.
    pub name: String,
    /// The version of the artifact.
    pub version: VersionSpec,
    /// Where the artifact's bytes can be fetched.
    pub location: String,
}

/// What a component declares: its name and the exact versions it depends on.
pub struct Manifest {
    /// The component's name.
    pub name: String,
    /// Dependencies needed to build the component.
    pub dependencies: NameMap<VersionSpec>,
    /// Dependencies needed only while developing it.
    pub dev_dependencies: NameMap<VersionSpec>,
}

impl Manifest {
    /// Neither map names a component twice.
    pub open spec fn wf(&self) -> bool {
        self.dependencies.wf() && self.dev_dependencies.wf()
    }
}

/// What `Lock` stands for in contracts.
pub struct LockView {
    /// The installed version.
    pub version: VersionView,
    /// The environment the artifact was built in.
    pub environment: Seq<char>,
}

/// What the lockfile of an installed dependency records, as far as the library
/// reads it.
#[derive(Debug, PartialEq, Eq)]
pub struct Lock {
    /// The installed version.
    pub version: VersionSpec,
    /// The environment the artifact was built in.
    pub environment: String,
}

impl View for Lock {
    type V = LockView;

    open spec fn view(&self) -> LockView {
        LockView { version: self.version@, environment: self.environment@ }
    }
}

/// The populated input tree: one entry per installed dependency.
pub type InputTree = NameMap<Lock>;

/// Taking one more entry of a sequence with unique names inserts it into the map
/// of those taken so far.
pub proof fn lemma_take_step<T>(s: Seq<(Seq<char>, T)>, j: int)
    requires
        unique_keys(s),
        0 <= j < s.len(),
    ensures
        unique_keys(s.take(j)),
        !has_key(s.take(j), s[j].0),
        s.take(j + 1) == s.take(j).push(s[j]),
        as_map(s.take(j + 1)) == as_map(s.take(j)).insert(s[j].0, s[j].1),
{
    let t = s.take(j);
    assert forall|a: int, b: int| 0 <= a < b < t.len() implies (#[trigger] t[a]).0 != (#[trigger] t[b]).0 by {
        assert(s[a].0 != s[b].0);
    }
    if has_key(t, s[j].0) {
        let a = choose|a: int| 0 <= a < t.len() && (#[trigger] t[a]).0 == s[j].0;
        assert(s[a].0 != s[j].0);
    }
    assert(s.take(j + 1) =~= t.push(s[j]));
    lemma_push_inserts(t, s[j].0, s[j].1);
}

/// The dependencies to resolve: those of the manifest and, where `dev` is set, its
/// development dependencies, which win over a release entry of the same name.
pub open spec fn resolved(m: &Manifest, dev: bool) -> Map<Seq<char>, VersionView> {
    if dev {
        m.dependencies.map().union_prefer_right(m.dev_dependencies.map())
    } else {
        m.dependencies.map()
    }
}

/// The order in which the dependencies are resolved: those of the manifest in
/// their order, then the development dependencies that are new in theirs.
pub open spec fn resolved_entries(m: &Manifest, dev: bool) -> Seq<(Seq<char>, VersionView)> {
    if dev {
        put_all(
            m.dependencies.entries(),
            m.dev_dependencies.entries(),
            m.dev_dependencies.entries().len() as int,
        )
    } else {
        m.dependencies.entries()
    }
}

/// Builds the working map of dependencies to fetch.
pub fn dependency_set(manifest: &Manifest, dev: bool) -> (set: NameMap<VersionSpec>)
    requires
        manifest.wf(),
    ensures
        set.wf(),
        set.map() == resolved(manifest, dev),
        set.entries() == resolved_entries(manifest, dev),
{
    let mut set: NameMap<VersionSpec> = NameMap::new();
    let deps = &manifest.dependencies;
    let mut i: usize = 0;
    while i < deps.len()
        invariant
            deps.wf(),
            set.wf(),
            i <= deps.entries().len(),
            set.map() == as_map(deps.entries().take(i as int)),
            set.entries() == deps.entries().take(i as int),
        decreases deps.entries().len() - i,
    {
        proof {
            lemma_take_step(deps.entries(), i as int);
        }
        set.insert(deps.name_at(i).clone(), deps.value_at(i).duplicate());
        i += 1;
    }
    proof {
        assert(deps.entries().take(i as int) =~= deps.entries());
    }
    if dev {
        let more = &manifest.dev_dependencies;
        let mut j: usize = 0;
        while j < more.len()
            invariant
                more.wf(),
                set.wf(),
                j <= more.entries().len(),
                set.map() == deps.map().union_prefer_right(as_map(more.entries().take(j as int))),
                set.entries() == put_all(deps.entries(), more.entries(), j as int),
            decreases more.entries().len() - j,
        {
            proof {
                lemma_take_step(more.entries(), j as int);
                let e = more.entries()[j as int];
                let before = as_map(more.entries().take(j as int));
                assert(deps.map().union_prefer_right(before.insert(e.0, e.1))
                    =~= deps.map().union_prefer_right(before).insert(e.0, e.1));
            }
            set.insert(more.name_at(j).clone(), more.value_at(j).duplicate());
            j += 1;
        }
        proof {
            assert(more.entries().take(j as int) =~= more.entries());
        }
    } else {
    }
    set
}

} // verus!
