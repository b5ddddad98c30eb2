//! Checking a populated input tree against the manifest and an environment.

use vstd::prelude::*;
use vstd::string::*;
use crate::errors::CliError;
use crate::install::{full_install, law_partial_failure_is_isolated, law_tree_holds_only_the_planned, outcome};
use crate::manifest::{InputTree, LockView};
use crate::names::{as_map, lemma_entry_in_map, unique_keys, NameMap};
use crate::version::{VersionSpec, VersionView};

verus! {

/// What `VerifyFailure` stands for in contracts.
pub enum FailureView {
    /// The input tree lacks the dependency.
    MissingDependency(Seq<char>),
    /// The installed version is not the declared one: name, declared, installed.
    VersionMismatch(Seq<char>, VersionView, VersionView),
    /// The dependency was built in another environment: name, wanted, found.
    EnvironmentMismatch(Seq<char>, Seq<char>, Seq<char>),
    /// The dependency is installed from a stash.
    StashNotAllowed(Seq<char>),
}

/// What is wrong with one dependency of the input tree.
#[derive(Debug, PartialEq, Eq)]
pub enum VerifyFailure {
    /// The input tree lacks the dependency.
    MissingDependency(String),
    /// The installed version is not the declared one: name, declared, installed.
    VersionMismatch(String, VersionSpec, VersionSpec),
    /// The dependency was built in another environment: name, wanted, found.
    EnvironmentMismatch(String, String, String),
    /// The dependency is installed from a stash, which only the simple check
    /// accepts.
    StashNotAllowed(String),
}

impl View for VerifyFailure {
    type V = FailureView;

    open spec fn view(&self) -> FailureView {
        match self {
            VerifyFailure::MissingDependency(n) => FailureView::MissingDependency(n@),
            VerifyFailure::VersionMismatch(n, e, f) => FailureView::VersionMismatch(n@, e@, f@),
            VerifyFailure::EnvironmentMismatch(n, e, f) => FailureView::EnvironmentMismatch(n@, e@, f@),
            VerifyFailure::StashNotAllowed(n) => FailureView::StashNotAllowed(n@),
        }
    }
}

/// What is wrong with the dependency `name`, declared at version `declared`, in
/// `tree`: the first of these that applies, or nothing. It is absent. It is
/// installed from a stash and the check is the full one. It is installed as a
/// release other than the declared version. Its lockfile names an environment
/// other than `env`.
pub open spec fn verdict(name: Seq<char>, declared: VersionView, tree: Map<Seq<char>, LockView>, env: Seq<char>, simple: bool) -> Option<
    FailureView,
> {
    if !tree.contains_key(name) {
        Some(FailureView::MissingDependency(name))
    } else if tree[name].version is Stash && !simple {
        Some(FailureView::StashNotAllowed(name))
    } else if tree[name].version is Release && tree[name].version != declared {
        Some(FailureView::VersionMismatch(name, declared, tree[name].version))
    } else if tree[name].environment != env {
        Some(FailureView::EnvironmentMismatch(name, env, tree[name].environment))
    } else {
        None
    }
}

/// The failures of the first `n` dependencies, in their order.
pub open spec fn failures(deps: Seq<(Seq<char>, VersionView)>, tree: Map<Seq<char>, LockView>, env: Seq<char>, simple: bool, n: int) -> Seq<
    FailureView,
>
    decreases n,
{
    if n <= 0 {
        Seq::empty()
    } else {
        let rest = failures(deps, tree, env, simple, n - 1);
        match verdict(deps[n - 1].0, deps[n - 1].1, tree, env, simple) {
            Some(f) => rest.push(f),
            None => rest,
        }
    }
}

/// The views of a sequence of failures.
pub open spec fn failure_views(v: Seq<VerifyFailure>) -> Seq<FailureView> {
    Seq::new(v.len(), |i: int| v[i]@)
}

/// Checks one dependency.
pub fn check_dependency(name: &String, declared: &VersionSpec, tree: &InputTree, env: &str, simple: bool) -> (r: Option<
    VerifyFailure,
>)
    requires
        tree.wf(),
    ensures
        match r {
            Some(f) => verdict(name@, declared@, tree.map(), env@, simple) == Some(f@),
            None => verdict(name@, declared@, tree.map(), env@, simple) is None,
        },
{
    match tree.get(name.as_str()) {
        None => Some(VerifyFailure::MissingDependency(name.clone())),
        Some(lock) => {
            if lock.version.is_stash() && !simple {
                Some(VerifyFailure::StashNotAllowed(name.clone()))
            } else if !lock.version.is_stash() && !lock.version.same(declared) {
                Some(VerifyFailure::VersionMismatch(name.clone(), declared.duplicate(), lock.version.duplicate()))
            } else if !crate::names::same_text(lock.environment.as_str(), env) {
                Some(VerifyFailure::EnvironmentMismatch(name.clone(), String::from_str(env), lock.environment.clone()))
            } else {
                None
            }
        },
    }
}

/// The failures for the first `n` entries of the tree that are installed from a
/// stash without being a dependency, in their order.
pub open spec fn stray_stashes(tree: Seq<(Seq<char>, LockView)>, deps: Map<Seq<char>, VersionView>, n: int) -> Seq<
    FailureView,
>
    decreases n,
{
    if n <= 0 {
        Seq::empty()
    } else {
        let rest = stray_stashes(tree, deps, n - 1);
        if tree[n - 1].1.version is Stash && !deps.contains_key(tree[n - 1].0) {
            rest.push(FailureView::StashNotAllowed(tree[n - 1].0))
        } else {
            rest
        }
    }
}

/// Everything that is wrong with the tree: the failure of each dependency that
/// has one, in the order of the dependencies, and after them, in the full check,
/// one `StashNotAllowed` for each other entry of the tree that is installed from
/// a stash.
pub open spec fn findings(deps: Seq<(Seq<char>, VersionView)>, tree: Seq<(Seq<char>, LockView)>, env: Seq<char>, simple: bool) -> Seq<
    FailureView,
> {
    let named = failures(deps, as_map(tree), env, simple, deps.len() as int);
    if simple {
        named
    } else {
        named + stray_stashes(tree, as_map(deps), tree.len() as int)
    }
}

/// Checks the input tree against the dependencies `deps` and the environment
/// `env`. Every dependency is checked, whatever was found for the others, and
/// the result is `Ok` only where nothing is wrong. The simple check accepts what
/// is installed from a stash; the full one accepts no stash anywhere in the
/// tree.
pub fn verify(deps: &NameMap<VersionSpec>, tree: &InputTree, env: &str, simple: bool) -> (r: Result<(), Vec<VerifyFailure>>)
    requires
        deps.wf(),
        tree.wf(),
    ensures
        match r {
            Ok(_) => findings(deps.entries(), tree.entries(), env@, simple).len() == 0,
            Err(found) => found@.len() > 0 && failure_views(found@) == findings(
                deps.entries(),
                tree.entries(),
                env@,
                simple,
            ),
        },
{
    let mut found: Vec<VerifyFailure> = Vec::new();
    let mut i: usize = 0;
    proof {
        assert(failure_views(found@) =~= Seq::<FailureView>::empty());
    }
    while i < deps.len()
        invariant
            tree.wf(),
            i <= deps.entries().len(),
            failure_views(found@) == failures(deps.entries(), tree.map(), env@, simple, i as int),
        decreases deps.entries().len() - i,
    {
        match check_dependency(deps.name_at(i), deps.value_at(i), tree, env, simple) {
            Some(f) => {
                let ghost before = found@;
                found.push(f);
                proof {
                    assert(failure_views(found@) =~= failure_views(before).push(f@));
                }
            },
            None => {},
        }
        i += 1;
    }
    if !simple {
        let ghost named = failure_views(found@);
        let mut j: usize = 0;
        proof {
            assert(named + Seq::<FailureView>::empty() =~= named);
        }
        while j < tree.len()
            invariant
                j <= tree.entries().len(),
                failure_views(found@) == named + stray_stashes(tree.entries(), deps.map(), j as int),
            decreases tree.entries().len() - j,
        {
            if tree.value_at(j).version.is_stash() && !deps.contains_key(tree.name_at(j).as_str()) {
                let ghost before = found@;
                let ghost strays = stray_stashes(tree.entries(), deps.map(), j as int);
                let f = VerifyFailure::StashNotAllowed(tree.name_at(j).clone());
                found.push(f);
                proof {
                    assert(failure_views(found@) =~= failure_views(before).push(f@));
                    assert((named + strays).push(f@) =~= named + strays.push(f@));
                }
            }
            j += 1;
        }
    }
    if found.len() == 0 {
        Ok(())
    } else {
        Err(found)
    }
}

/// Whether the error `e` reports the failure `f`.
pub open spec fn reports(e: CliError, f: FailureView) -> bool {
    match e {
        CliError::MissingDependency(n) => f == FailureView::MissingDependency(n@),
        CliError::VersionMismatch(n, d, i) => f == FailureView::VersionMismatch(n@, d@, i@),
        CliError::EnvironmentMismatch(n, w, g) => f == FailureView::EnvironmentMismatch(n@, w@, g@),
        CliError::StashNotAllowed(n) => f == FailureView::StashNotAllowed(n@),
        _ => false,
    }
}

impl VerifyFailure {
    /// The failure as an error.
    pub fn into_error(self) -> (e: CliError)
        ensures
            reports(e, self@),
    {
        match self {
            VerifyFailure::MissingDependency(n) => CliError::MissingDependency(n),
            VerifyFailure::VersionMismatch(n, d, i) => CliError::VersionMismatch(n, d, i),
            VerifyFailure::EnvironmentMismatch(n, w, g) => CliError::EnvironmentMismatch(n, w, g),
            VerifyFailure::StashNotAllowed(n) => CliError::StashNotAllowed(n),
        }
    }
}

/// Flattens the outcome of a check into a single result: the first failure
/// found, as an error, or `Ok` where nothing was found.
pub fn verify_outcome(found: Vec<VerifyFailure>) -> (r: Result<(), CliError>)
    ensures
        r is Ok <==> found@.len() == 0,
        r matches Err(e) ==> reports(e, found@[0]@),
{
    let mut found = found;
    if found.len() == 0 {
        Ok(())
    } else {
        let first = found.swap_remove(0);
        Err(first.into_error())
    }
}

/// After a full install in which every fetch succeeded, with releases only and
/// every lockfile naming `env`, each dependency of the plan passes the check
/// against `env`, and against any other environment it fails with
/// `EnvironmentMismatch`.
pub proof fn law_installed_dependency_verifies(
    prior: Map<Seq<char>, LockView>,
    plan: Seq<(Seq<char>, VersionView)>,
    fetched: Seq<Option<String>>,
    env: Seq<char>,
    other: Seq<char>,
    simple: bool,
    i: int,
)
    requires
        unique_keys(plan),
        0 <= i < plan.len(),
        forall|j: int| 0 <= j < plan.len() ==> #[trigger] outcome(fetched, j) == Some(env),
        forall|j: int| 0 <= j < plan.len() ==> (#[trigger] plan[j]).1 is Release,
        other != env,
    ensures
        verdict(plan[i].0, plan[i].1, full_install(prior, plan, fetched), env, simple) is None,
        verdict(plan[i].0, plan[i].1, full_install(prior, plan, fetched), other, simple) == Some(
            FailureView::EnvironmentMismatch(plan[i].0, other, env),
        ),
{
    assert(outcome(fetched, i) == Some(env));
    assert(plan[i].1 is Release);
    law_partial_failure_is_isolated(plan, fetched, plan.len() as int, i);
}

proof fn lemma_dependencies_pass(
    prior: Map<Seq<char>, LockView>,
    plan: Seq<(Seq<char>, VersionView)>,
    fetched: Seq<Option<String>>,
    env: Seq<char>,
    simple: bool,
    n: int,
)
    requires
        unique_keys(plan),
        0 <= n <= plan.len(),
        forall|j: int| 0 <= j < plan.len() ==> #[trigger] outcome(fetched, j) == Some(env),
        forall|j: int| 0 <= j < plan.len() ==> (#[trigger] plan[j]).1 is Release,
    ensures
        failures(plan, full_install(prior, plan, fetched), env, simple, n).len() == 0,
    decreases n,
{
    if n > 0 {
        lemma_dependencies_pass(prior, plan, fetched, env, simple, n - 1);
        let other = env.push('x');
        assert(other.len() != env.len());
        law_installed_dependency_verifies(prior, plan, fetched, env, other, simple, n - 1);
    }
}

proof fn lemma_no_strays(
    plan: Seq<(Seq<char>, VersionView)>,
    fetched: Seq<Option<String>>,
    tree: Seq<(Seq<char>, LockView)>,
    n: int,
)
    requires
        unique_keys(tree),
        0 <= n <= tree.len(),
        as_map(tree) == crate::install::tree_after(plan, fetched, plan.len() as int),
    ensures
        stray_stashes(tree, as_map(plan), n).len() == 0,
    decreases n,
{
    if n > 0 {
        lemma_no_strays(plan, fetched, tree, n - 1);
        let k = tree[n - 1].0;
        lemma_entry_in_map(tree, n - 1);
        law_tree_holds_only_the_planned(plan, fetched, plan.len() as int, k);
        let j = choose|j: int| 0 <= j < plan.len() && (#[trigger] plan[j]).0 == k;
        assert(0 <= j < plan.len() && plan[j].0 == k);
        assert(as_map(plan).contains_key(k));
    }
}

/// A full install in which every fetch succeeded, with releases only and every
/// lockfile naming `env`, leaves a tree in which neither check against `env`
/// finds anything wrong.
pub proof fn law_full_install_verifies(
    prior: Map<Seq<char>, LockView>,
    plan: Seq<(Seq<char>, VersionView)>,
    fetched: Seq<Option<String>>,
    tree: Seq<(Seq<char>, LockView)>,
    env: Seq<char>,
    simple: bool,
)
    requires
        unique_keys(plan),
        unique_keys(tree),
        as_map(tree) == full_install(prior, plan, fetched),
        forall|j: int| 0 <= j < plan.len() ==> #[trigger] outcome(fetched, j) == Some(env),
        forall|j: int| 0 <= j < plan.len() ==> (#[trigger] plan[j]).1 is Release,
    ensures
        findings(plan, tree, env, simple).len() == 0,
{
    lemma_dependencies_pass(prior, plan, fetched, env, simple, plan.len() as int);
    lemma_no_strays(plan, fetched, tree, tree.len() as int);
}

/// A dependency installed from a stash, in the environment asked for, passes the
/// simple check and fails the full one with `StashNotAllowed`, whatever version
/// the manifest declares.
pub proof fn law_stash_is_excluded_from_full_check(
    tree: Map<Seq<char>, LockView>,
    name: Seq<char>,
    declared: VersionView,
    env: Seq<char>,
)
    requires
        tree.contains_key(name),
        tree[name].version is Stash,
        tree[name].environment == env,
    ensures
        verdict(name, declared, tree, env, true) is None,
        verdict(name, declared, tree, env, false) == Some(FailureView::StashNotAllowed(name)),
{
}

} // verus!
