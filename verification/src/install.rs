//! Installing and removing dependencies: what to fetch, what the input tree
//! holds afterwards, and what is written back to the manifest.

use vstd::prelude::*;
use vstd::string::*;
use crate::errors::CliError;
use crate::manifest::{Component, InputTree, Lock, LockView, Manifest};
use crate::names::{unique_keys, NameMap};
use crate::version::{decimal_u32, VersionSpec, VersionView};

verus! {

/// The position of the first `=` in `s` at or after `from`, or the length of `s`
/// where there is none.
pub open spec fn find_eq(s: Seq<char>, from: int) -> int
    decreases s.len() - from,
{
    if from >= s.len() {
        s.len() as int
    } else if s[from] == '=' {
        from
    } else {
        find_eq(s, from + 1)
    }
}

/// What `Wanted` stands for in contracts.
pub enum WantedView {
    /// The newest release.
    Latest,
    /// This release.
    Release(u32),
    /// The stash of this tag.
    Stash(Seq<char>),
}

/// Which version of a component an explicit request asks for.
#[derive(Debug, PartialEq, Eq)]
pub enum Wanted {
    /// The newest release that the store knows.
    Latest,
    /// This numbered release.
    Release(u32),
    /// The build stashed locally under this tag; never fetched remotely.
    Stash(String),
}

impl View for Wanted {
    type V = WantedView;

    open spec fn view(&self) -> WantedView {
        match self {
            Wanted::Latest => WantedView::Latest,
            Wanted::Release(n) => WantedView::Release(*n),
            Wanted::Stash(tag) => WantedView::Stash(tag@),
        }
    }
}

/// An explicit request to install one component.
#[derive(Debug, PartialEq, Eq)]
pub struct Request {
    /// The component's name.
    pub name: String,
    /// The version asked for.
    pub wanted: Wanted,
}

/// The name that a request of the form `name` or `name=version` carries: the text
/// before the first `=`.
pub open spec fn request_name(s: Seq<char>) -> Seq<char> {
    s.subrange(0, find_eq(s, 0))
}

/// The version that a request of the form `name` or `name=version` asks for. A
/// bare name asks for the latest release. Otherwise the text between the first
/// `=` and the next one (or the end) decides: a decimal number is a release, any
/// other text is a stash tag.
pub open spec fn request_wanted(s: Seq<char>) -> WantedView {
    let e = find_eq(s, 0);
    if e >= s.len() {
        WantedView::Latest
    } else {
        let v = s.subrange(e + 1, find_eq(s, e + 1));
        match decimal_u32(v) {
            Some(n) => WantedView::Release(n),
            None => WantedView::Stash(v),
        }
    }
}

fn scan_eq(text: &str, len: usize, from: usize) -> (at: usize)
    requires
        len == text@.len(),
        from <= len,
    ensures
        at == find_eq(text@, from as int),
        from <= at <= len,
{
    let mut i: usize = from;
    while i < len
        invariant
            len == text@.len(),
            from <= i <= len,
            find_eq(text@, from as int) == find_eq(text@, i as int),
        decreases len - i,
    {
        if text.get_char(i) == '=' {
            return i;
        }
        i += 1;
    }
    i
}

/// Reads a request of the form `name` or `name=version`.
pub fn parse_component(comp: &str) -> (r: Request)
    ensures
        r.name@ == request_name(comp@),
        r.wanted@ == request_wanted(comp@),
{
    let len = comp.unicode_len();
    let e = scan_eq(comp, len, 0);
    let name = String::from_str(comp.substring_char(0, e));
    if e >= len {
        Request { name, wanted: Wanted::Latest }
    } else {
        let e2 = scan_eq(comp, len, e + 1);
        let v = comp.substring_char(e + 1, e2);
        match VersionSpec::from_text(v) {
            VersionSpec::Release(n) => Request { name, wanted: Wanted::Release(n) },
            VersionSpec::Stash(tag) => Request { name, wanted: Wanted::Stash(tag) },
        }
    }
}

/// The names of the first `n` requests.
pub open spec fn requested_names(requests: Seq<Request>, n: int) -> Set<Seq<char>> {
    Set::new(|k: Seq<char>| exists|i: int| 0 <= i < n && i < requests.len() && (#[trigger] requests[i]).name@ == k)
}

/// One run of explicit installs over an input tree: the tree as it stands, what
/// was installed so far, and the last failure.
pub struct InstallRun {
    /// The input tree as it stands.
    pub tree: InputTree,
    /// The components installed by this run, in the order they arrived.
    pub installed: Vec<Component>,
    /// The most recent failure of a fetch, if any fetch failed.
    pub error: Option<CliError>,
}

impl InstallRun {
    /// Begins a run over `tree`: the earlier entries of the requested components
    /// leave the tree, all others stay as they are.
    pub fn start(tree: InputTree, requests: &Vec<Request>) -> (run: InstallRun)
        requires
            tree.wf(),
        ensures
            run.tree.wf(),
            run.tree.map() == tree.map().remove_keys(requested_names(requests@, requests@.len() as int)),
            run.installed@.len() == 0,
            run.error is None,
    {
        let ghost before = tree.map();
        let mut tree = tree;
        let mut i: usize = 0;
        proof {
            assert(before.remove_keys(requested_names(requests@, 0)) =~= before);
        }
        while i < requests.len()
            invariant
                tree.wf(),
                i <= requests@.len(),
                tree.map() == before.remove_keys(requested_names(requests@, i as int)),
            decreases requests@.len() - i,
        {
            let ghost k = requests@[i as int].name@;
            tree.remove(requests[i].name.as_str());
            proof {
                let a = requested_names(requests@, i as int);
                let b = requested_names(requests@, i as int + 1);
                assert forall|q: Seq<char>| b.contains(q) <==> (a.contains(q) || q == k) by {
                    if a.contains(q) {
                        let w = choose|w: int| 0 <= w < i && w < requests@.len() && (#[trigger] requests@[w]).name@ == q;
                        assert(0 <= w < i + 1 && requests@[w].name@ == q);
                    }
                    if q == k {
                        assert(requests@[i as int].name@ == q);
                    }
                }
                assert(before.remove_keys(a).remove(k) =~= before.remove_keys(b));
            }
            i += 1;
        }
        InstallRun { tree, installed: Vec::new(), error: None }
    }

    /// Records that `component` was fetched and extracted, and that its lockfile
    /// names `environment`.
    pub fn fetched(&mut self, component: Component, environment: String)
        requires
            old(self).tree.wf(),
        ensures
            final(self).tree.wf(),
            final(self).tree.map() == old(self).tree.map().insert(
                component.name@,
                LockView { version: component.version@, environment: environment@ },
            ),
            final(self).installed@ == old(self).installed@.push(component),
            final(self).error == old(self).error,
    {
        let lock = Lock { version: component.version.duplicate(), environment };
        self.tree.insert(component.name.clone(), lock);
        self.installed.push(component);
    }

    /// Records that a fetch failed. The tree keeps what was installed.
    pub fn failed(&mut self, error: CliError)
        ensures
            final(self).tree == old(self).tree,
            final(self).installed == old(self).installed,
            final(self).error == Some(error),
    {
        self.error = Some(error);
    }
}

/// The map after the versions of the installed components were written into it,
/// one after the other.
pub open spec fn saved(base: Map<Seq<char>, VersionView>, installed: Seq<Component>) -> Map<Seq<char>, VersionView>
    decreases installed.len(),
{
    if installed.len() == 0 {
        base
    } else {
        saved(base, installed.drop_last()).insert(installed.last().name@, installed.last().version@)
    }
}

/// Saving touches only what was installed: a name that no installed component
/// carries is in the map after saving exactly if it was there before, with the
/// version it had.
pub proof fn law_save_leaves_the_rest(base: Map<Seq<char>, VersionView>, installed: Seq<Component>, k: Seq<char>)
    requires
        forall|i: int| 0 <= i < installed.len() ==> (#[trigger] installed[i]).name@ != k,
    ensures
        saved(base, installed).contains_key(k) == base.contains_key(k),
        base.contains_key(k) ==> saved(base, installed)[k] == base[k],
    decreases installed.len(),
{
    if installed.len() > 0 {
        let rest = installed.drop_last();
        assert forall|i: int| 0 <= i < rest.len() implies (#[trigger] rest[i]).name@ != k by {
            assert(rest[i] == installed[i]);
        }
        law_save_leaves_the_rest(base, rest, k);
        assert(installed.last() == installed[installed.len() - 1]);
    }
}

/// Saving writes what was installed: the last component installed under a name
/// gives the version that the map holds under that name.
pub proof fn law_save_writes_the_installed(base: Map<Seq<char>, VersionView>, installed: Seq<Component>, i: int)
    requires
        0 <= i < installed.len(),
        forall|j: int| i < j < installed.len() ==> (#[trigger] installed[j]).name@ != installed[i].name@,
    ensures
        saved(base, installed).contains_key(installed[i].name@),
        saved(base, installed)[installed[i].name@] == installed[i].version@,
    decreases installed.len(),
{
    if i < installed.len() - 1 {
        let rest = installed.drop_last();
        assert(rest[i] == installed[i]);
        assert forall|j: int| i < j < rest.len() implies (#[trigger] rest[j]).name@ != rest[i].name@ by {
            assert(rest[j] == installed[j]);
        }
        law_save_writes_the_installed(base, rest, i);
        assert(installed.last() == installed[installed.len() - 1]);
    }
}

fn save_into(map: NameMap<VersionSpec>, installed: &Vec<Component>) -> (out: NameMap<VersionSpec>)
    requires
        map.wf(),
    ensures
        out.wf(),
        out.map() == saved(map.map(), installed@),
{
    let ghost base = map.map();
    let mut out = map;
    let mut i: usize = 0;
    while i < installed.len()
        invariant
            out.wf(),
            i <= installed@.len(),
            out.map() == saved(base, installed@.take(i as int)),
        decreases installed@.len() - i,
    {
        proof {
            assert(installed@.take(i as int + 1).drop_last() =~= installed@.take(i as int));
        }
        out.insert(installed[i].name.clone(), installed[i].version.duplicate());
        i += 1;
    }
    proof {
        assert(installed@.take(i as int) =~= installed@);
    }
    out
}

/// Ends a run of explicit installs. Where a fetch failed, the last failure is the
/// result and the manifest is not written. Otherwise the manifest comes back:
/// with `save` the installed versions stand in its dependencies, else with
/// `savedev` in its development dependencies, and everything else is as it was.
pub fn install(manifest: Manifest, run: InstallRun, save: bool, savedev: bool) -> (r: Result<Manifest, CliError>)
    requires
        manifest.wf(),
    ensures
        match r {
            Err(e) => run.error == Some(e),
            Ok(m) => {
                &&& run.error is None
                &&& m.wf()
                &&& m.name == manifest.name
                &&& if save {
                    &&& m.dependencies.map() == saved(manifest.dependencies.map(), run.installed@)
                    &&& m.dev_dependencies == manifest.dev_dependencies
                } else if savedev {
                    &&& m.dependencies == manifest.dependencies
                    &&& m.dev_dependencies.map() == saved(manifest.dev_dependencies.map(), run.installed@)
                } else {
                    m == manifest
                }
            },
        },
{
    let InstallRun { tree: _, installed, error } = run;
    match error {
        Some(e) => Err(e),
        None => {
            if save {
                let Manifest { name, dependencies, dev_dependencies } = manifest;
                let dependencies = save_into(dependencies, &installed);
                Ok(Manifest { name, dependencies, dev_dependencies })
            } else if savedev {
                let Manifest { name, dependencies, dev_dependencies } = manifest;
                let dev_dependencies = save_into(dev_dependencies, &installed);
                Ok(Manifest { name, dependencies, dev_dependencies })
            } else {
                Ok(manifest)
            }
        },
    }
}

/// What removing the names `xs` from `m`, one after the other, comes to: the map
/// that is left, or the first name that was not there when its turn came.
pub open spec fn removal(m: Map<Seq<char>, VersionView>, xs: Seq<Seq<char>>) -> Result<Map<Seq<char>, VersionView>, Seq<char>>
    decreases xs.len(),
{
    if xs.len() == 0 {
        Ok(m)
    } else if !m.contains_key(xs[0]) {
        Err(xs[0])
    } else {
        removal(m.remove(xs[0]), xs.skip(1))
    }
}

/// Whether the removal goes through and leaves `left`.
pub open spec fn removal_leaves(m: Map<Seq<char>, VersionView>, xs: Seq<Seq<char>>, left: Map<Seq<char>, VersionView>) -> bool {
    removal(m, xs) matches Ok(out) && out == left
}

/// Whether the removal stops at the absent name `name`.
pub open spec fn removal_misses(m: Map<Seq<char>, VersionView>, xs: Seq<Seq<char>>, name: Seq<char>) -> bool {
    removal(m, xs) matches Err(n) && n == name
}

/// The texts that a vector of strings holds.
pub open spec fn texts(xs: Seq<String>) -> Seq<Seq<char>> {
    Seq::new(xs.len(), |i: int| xs[i]@)
}

fn remove_from(map: NameMap<VersionSpec>, xs: &Vec<String>) -> (r: Result<NameMap<VersionSpec>, CliError>)
    requires
        map.wf(),
    ensures
        match r {
            Ok(out) => out.wf() && removal_leaves(map.map(), texts(xs@), out.map()),
            Err(e) => e matches CliError::MissingComponent(name) && removal_misses(map.map(), texts(xs@), name@),
        },
{
    let ghost base = map.map();
    let ghost names = texts(xs@);
    let mut out = map;
    let mut i: usize = 0;
    proof {
        assert(names.skip(0) =~= names);
    }
    while i < xs.len()
        invariant
            out.wf(),
            i <= xs@.len(),
            names == texts(xs@),
            base == map.map(),
            removal(base, names) == removal(out.map(), names.skip(i as int)),
        decreases xs@.len() - i,
    {
        proof {
            assert(names.skip(i as int)[0] == xs@[i as int]@);
            assert(names.skip(i as int).skip(1) =~= names.skip(i as int + 1));
        }
        let ghost held = out.map();
        if !out.remove(xs[i].as_str()) {
            let name = xs[i].clone();
            proof {
                assert(!held.contains_key(names.skip(i as int)[0]));
                assert(removal_misses(held, names.skip(i as int), name@));
            }
            return Err(CliError::MissingComponent(name));
        }
        i += 1;
    }
    Ok(out)
}

/// The names that `xs` holds.
pub open spec fn name_set(xs: Seq<String>, n: int) -> Set<Seq<char>> {
    Set::new(|k: Seq<char>| exists|i: int| 0 <= i < n && i < xs.len() && (#[trigger] xs[i])@ == k)
}

/// Removes the components `xs` from the input tree and, with `save` or `savedev`,
/// from the manifest's dependencies or development dependencies. The manifest is
/// dealt with first: a name that is absent from its map when its turn comes ends
/// the whole operation with `MissingComponent`, and nothing is removed. A name
/// that the tree does not hold is passed over.
pub fn uninstall(manifest: Manifest, tree: InputTree, xs: &Vec<String>, save: bool, savedev: bool) -> (r: Result<
    (Manifest, InputTree),
    CliError,
>)
    requires
        manifest.wf(),
        tree.wf(),
    ensures
        match r {
            Err(e) => {
                &&& save || savedev
                &&& e matches CliError::MissingComponent(name) && removal_misses(
                    if save {
                        manifest.dependencies.map()
                    } else {
                        manifest.dev_dependencies.map()
                    },
                    texts(xs@),
                    name@,
                )
            },
            Ok((m, t)) => {
                &&& m.wf()
                &&& t.wf()
                &&& m.name == manifest.name
                &&& t.map() == tree.map().remove_keys(name_set(xs@, xs@.len() as int))
                &&& if save {
                    &&& removal_leaves(manifest.dependencies.map(), texts(xs@), m.dependencies.map())
                    &&& m.dev_dependencies == manifest.dev_dependencies
                } else if savedev {
                    &&& m.dependencies == manifest.dependencies
                    &&& removal_leaves(manifest.dev_dependencies.map(), texts(xs@), m.dev_dependencies.map())
                } else {
                    m == manifest
                }
            },
        },
{
    let m = if save {
        let Manifest { name, dependencies, dev_dependencies } = manifest;
        match remove_from(dependencies, xs) {
            Ok(dependencies) => Manifest { name, dependencies, dev_dependencies },
            Err(e) => {
                return Err(e);
            },
        }
    } else if savedev {
        let Manifest { name, dependencies, dev_dependencies } = manifest;
        match remove_from(dev_dependencies, xs) {
            Ok(dev_dependencies) => Manifest { name, dependencies, dev_dependencies },
            Err(e) => {
                return Err(e);
            },
        }
    } else {
        manifest
    };
    let ghost before = tree.map();
    let mut tree = tree;
    let mut i: usize = 0;
    proof {
        assert(before.remove_keys(name_set(xs@, 0)) =~= before);
    }
    while i < xs.len()
        invariant
            tree.wf(),
            i <= xs@.len(),
            tree.map() == before.remove_keys(name_set(xs@, i as int)),
        decreases xs@.len() - i,
    {
        let ghost k = xs@[i as int]@;
        tree.remove(xs[i].as_str());
        proof {
            let a = name_set(xs@, i as int);
            let b = name_set(xs@, i as int + 1);
            assert forall|q: Seq<char>| b.contains(q) <==> (a.contains(q) || q == k) by {
                if a.contains(q) {
                    let w = choose|w: int| 0 <= w < i && w < xs@.len() && (#[trigger] xs@[w])@ == q;
                    assert(0 <= w < i + 1 && xs@[w]@ == q);
                }
                if q == k {
                    assert(xs@[i as int]@ == q);
                }
            }
            assert(before.remove_keys(a).remove(k) =~= before.remove_keys(b));
        }
        i += 1;
    }
    Ok((m, tree))
}

/// The environment that the lockfile of the `i`-th fetched dependency names, or
/// none where that fetch failed or was never made.
pub open spec fn outcome(fetched: Seq<Option<String>>, i: int) -> Option<Seq<char>> {
    if 0 <= i < fetched.len() {
        match fetched[i] {
            Some(env) => Some(env@),
            None => None,
        }
    } else {
        None
    }
}

/// The input tree after the first `n` dependencies of `plan` were dealt with,
/// starting from an empty tree: each fetched one stands in it at its planned
/// version, each failed one is absent.
pub open spec fn tree_after(plan: Seq<(Seq<char>, VersionView)>, fetched: Seq<Option<String>>, n: int) -> Map<
    Seq<char>,
    LockView,
>
    decreases n,
{
    if n <= 0 {
        Map::empty()
    } else {
        let rest = tree_after(plan, fetched, n - 1);
        match outcome(fetched, n - 1) {
            Some(env) => rest.insert(plan[n - 1].0, LockView { version: plan[n - 1].1, environment: env }),
            None => rest,
        }
    }
}

/// Whether one of the first `n` fetches failed.
pub open spec fn any_failed(fetched: Seq<Option<String>>, n: int) -> bool {
    exists|i: int| 0 <= i < n && #[trigger] outcome(fetched, i) is None
}

/// The input tree that a full install leaves: whatever `prior` held is wiped, and
/// the fetched dependencies of `plan` are all that it holds.
pub open spec fn full_install(prior: Map<Seq<char>, LockView>, plan: Seq<(Seq<char>, VersionView)>, fetched: Seq<
    Option<String>,
>) -> Map<Seq<char>, LockView> {
    tree_after(plan, fetched, plan.len() as int)
}

/// Installs every dependency of `plan` into a fresh input tree. `fetched` holds,
/// for each dependency in the order of `plan`, the environment named by its
/// lockfile where it was fetched and extracted, and nothing where that failed.
/// Every dependency is dealt with, whatever became of the others. The result is
/// the new tree together with `InstallFailure` where at least one fetch failed.
pub fn install_all(prior: InputTree, plan: &NameMap<VersionSpec>, fetched: &Vec<Option<String>>) -> (r: (
    InputTree,
    Result<(), CliError>,
))
    requires
        plan.wf(),
    ensures
        r.0.wf(),
        r.0.map() == full_install(prior.map(), plan.entries(), fetched@),
        r.1 is Err <==> any_failed(fetched@, plan.entries().len() as int),
        r.1 is Err ==> r.1 == Err::<(), CliError>(CliError::InstallFailure),
{
    let mut tree: InputTree = NameMap::new();
    let mut failed = false;
    let mut i: usize = 0;
    while i < plan.len()
        invariant
            plan.wf(),
            tree.wf(),
            i <= plan.entries().len(),
            tree.map() == tree_after(plan.entries(), fetched@, i as int),
            failed <==> any_failed(fetched@, i as int),
        decreases plan.entries().len() - i,
    {
        let ghost was = any_failed(fetched@, i as int);
        if i < fetched.len() {
            match &fetched[i] {
                Some(env) => {
                    let lock = Lock { version: plan.value_at(i).duplicate(), environment: env.clone() };
                    tree.insert(plan.name_at(i).clone(), lock);
                },
                None => {
                    failed = true;
                },
            }
        } else {
            failed = true;
        }
        proof {
            if was {
                let w = choose|w: int| 0 <= w < i && #[trigger] outcome(fetched@, w) is None;
                assert(0 <= w < i + 1 && outcome(fetched@, w) is None);
            }
            if any_failed(fetched@, i as int + 1) && !was {
                let w = choose|w: int| 0 <= w < i + 1 && #[trigger] outcome(fetched@, w) is None;
                assert(w == i);
            }
        }
        i += 1;
    }
    if failed {
        (tree, Err(CliError::InstallFailure))
    } else {
        (tree, Ok(()))
    }
}

/// A fetch that failed leaves the others alone: after a full install every
/// dependency that was fetched stands in the tree at its planned version, and a
/// dependency whose fetch failed is absent from it.
pub proof fn law_partial_failure_is_isolated(plan: Seq<(Seq<char>, VersionView)>, fetched: Seq<Option<String>>, n: int, i: int)
    requires
        unique_keys(plan),
        0 <= i < n <= plan.len(),
    ensures
        match outcome(fetched, i) {
            Some(env) => tree_after(plan, fetched, n).contains_key(plan[i].0) && tree_after(plan, fetched, n)[plan[i].0]
                == (LockView { version: plan[i].1, environment: env }),
            None => !tree_after(plan, fetched, n).contains_key(plan[i].0),
        },
    decreases n,
{
    if i < n - 1 {
        law_partial_failure_is_isolated(plan, fetched, n - 1, i);
        assert(plan[i].0 != plan[n - 1].0);
    } else {
        law_tree_holds_only_the_planned(plan, fetched, n - 1, plan[i].0);
        if tree_after(plan, fetched, n - 1).contains_key(plan[i].0) {
            let j = choose|j: int| 0 <= j < n - 1 && (#[trigger] plan[j]).0 == plan[i].0;
            assert(plan[j].0 != plan[i].0);
        }
    }
}

/// The tree holds nothing but what was planned: a name in the tree after the
/// first `n` dependencies were dealt with is the name of one of them.
pub proof fn law_tree_holds_only_the_planned(plan: Seq<(Seq<char>, VersionView)>, fetched: Seq<Option<String>>, n: int, k: Seq<
    char,
>)
    requires
        0 <= n <= plan.len(),
    ensures
        tree_after(plan, fetched, n).contains_key(k) ==> exists|j: int| 0 <= j < n && (#[trigger] plan[j]).0 == k,
    decreases n,
{
    if n > 0 {
        law_tree_holds_only_the_planned(plan, fetched, n - 1, k);
        if tree_after(plan, fetched, n).contains_key(k) {
            if tree_after(plan, fetched, n - 1).contains_key(k) {
                let j = choose|j: int| 0 <= j < n - 1 && (#[trigger] plan[j]).0 == k;
                assert(0 <= j < n && plan[j].0 == k);
            } else {
                assert(plan[n - 1].0 == k);
            }
        }
    }
}

/// Installing twice is installing once: a full install of the same plan with the
/// same fetches over the tree that the first one left gives that tree again.
pub proof fn law_reinstall_is_idempotent(prior: Map<Seq<char>, LockView>, plan: Seq<(Seq<char>, VersionView)>, fetched: Seq<
    Option<String>,
>)
    ensures
        full_install(full_install(prior, plan, fetched), plan, fetched) == full_install(prior, plan, fetched),
{
}

} // verus!
