use lal::errors::CliError;
use lal::install::{install, install_all, parse_component, uninstall, InstallRun, Request, Wanted};
use lal::manifest::{dependency_set, Component, InputTree, Lock, Manifest};
use lal::names::NameMap;
use lal::version::VersionSpec;

fn deps(pairs: &[(&str, u32)]) -> NameMap<VersionSpec> {
    let mut m = NameMap::new();
    for (k, v) in pairs {
        m.insert(k.to_string(), VersionSpec::Release(*v));
    }
    m
}

fn manifest(d: &[(&str, u32)], dev: &[(&str, u32)]) -> Manifest {
    Manifest { name: "helloworld".to_string(), dependencies: deps(d), dev_dependencies: deps(dev) }
}

fn component(name: &str, version: VersionSpec) -> Component {
    Component { name: name.to_string(), version, location: format!("http://store/{}", name) }
}

#[test]
fn parse_bare_name_asks_for_latest() {
    let r = parse_component("heylib");
    assert_eq!(r, Request { name: "heylib".to_string(), wanted: Wanted::Latest });
}

#[test]
fn parse_numbered_version_is_a_release() {
    let r = parse_component("heylib=3");
    assert_eq!(r, Request { name: "heylib".to_string(), wanted: Wanted::Release(3) });
}

#[test]
fn parse_other_text_is_a_stash_tag() {
    let r = parse_component("heylib=blah");
    assert_eq!(r, Request { name: "heylib".to_string(), wanted: Wanted::Stash("blah".to_string()) });
}

#[test]
fn parse_reads_up_to_the_second_equals_sign() {
    let r = parse_component("a=12=c");
    assert_eq!(r, Request { name: "a".to_string(), wanted: Wanted::Release(12) });
    let r = parse_component("a=");
    assert_eq!(r, Request { name: "a".to_string(), wanted: Wanted::Stash(String::new()) });
}

#[test]
fn parse_number_too_large_is_a_stash_tag() {
    let r = parse_component("a=4294967296");
    assert_eq!(r.wanted, Wanted::Stash("4294967296".to_string()));
    let r = parse_component("a=4294967295");
    assert_eq!(r.wanted, Wanted::Release(4294967295));
}

#[test]
fn version_from_text() {
    assert_eq!(VersionSpec::from_text("007"), VersionSpec::Release(7));
    assert_eq!(VersionSpec::from_text("+3"), VersionSpec::Release(3));
    assert_eq!(VersionSpec::from_text("-1"), VersionSpec::Stash("-1".to_string()));
    assert_eq!(VersionSpec::from_text(""), VersionSpec::Stash(String::new()));
    assert_eq!(VersionSpec::from_text("+"), VersionSpec::Stash("+".to_string()));
    assert_eq!(VersionSpec::from_text("1x"), VersionSpec::Stash("1x".to_string()));
    assert_eq!(VersionSpec::Release(120).text(), "120");
    assert_eq!(VersionSpec::Release(0).text(), "0");
    assert_eq!(VersionSpec::Stash("blah".to_string()).text(), "blah");
}

#[test]
fn dependency_set_merges_dev_over_release() {
    let m = manifest(&[("heylib", 1), ("libz", 4)], &[("heylib", 2), ("gtest", 9)]);
    let plain = dependency_set(&m, false);
    assert_eq!(plain.len(), 2);
    assert_eq!(plain.get("heylib"), Some(&VersionSpec::Release(1)));
    assert_eq!(plain.get("gtest"), None);
    let all = dependency_set(&m, true);
    assert_eq!(all.len(), 3);
    assert_eq!(all.get("heylib"), Some(&VersionSpec::Release(2)));
    assert_eq!(all.get("libz"), Some(&VersionSpec::Release(4)));
    assert_eq!(all.get("gtest"), Some(&VersionSpec::Release(9)));
    assert_eq!(all.name_at(0), "heylib");
    assert_eq!(all.name_at(1), "libz");
    assert_eq!(all.name_at(2), "gtest");
}

#[test]
fn manifest_save_updates_only_the_installed_entry() {
    let m = manifest(&[("heylib", 1), ("libz", 4)], &[("gtest", 9)]);
    let requests = vec![parse_component("heylib=3")];
    let mut run = InstallRun::start(InputTree::new(), &requests);
    run.fetched(component("heylib", VersionSpec::Release(3)), "default".to_string());
    let saved = install(m, run, true, false).unwrap();
    assert_eq!(saved.name, "helloworld");
    assert_eq!(saved.dependencies.len(), 2);
    assert_eq!(saved.dependencies.get("heylib"), Some(&VersionSpec::Release(3)));
    assert_eq!(saved.dependencies.get("libz"), Some(&VersionSpec::Release(4)));
    assert_eq!(saved.dependencies.name_at(0), "heylib");
    assert_eq!(saved.dependencies.name_at(1), "libz");
    assert_eq!(saved.dev_dependencies.len(), 1);
    assert_eq!(saved.dev_dependencies.get("gtest"), Some(&VersionSpec::Release(9)));
}

#[test]
fn manifest_savedev_writes_the_other_map() {
    let m = manifest(&[("heylib", 1)], &[]);
    let mut run = InstallRun::start(InputTree::new(), &vec![]);
    run.fetched(component("gtest", VersionSpec::Release(5)), "default".to_string());
    let saved = install(m, run, false, true).unwrap();
    assert_eq!(saved.dependencies.get("heylib"), Some(&VersionSpec::Release(1)));
    assert_eq!(saved.dependencies.len(), 1);
    assert_eq!(saved.dev_dependencies.get("gtest"), Some(&VersionSpec::Release(5)));
}

#[test]
fn install_without_save_leaves_the_manifest() {
    let m = manifest(&[("heylib", 1)], &[]);
    let mut run = InstallRun::start(InputTree::new(), &vec![]);
    run.fetched(component("heylib", VersionSpec::Release(7)), "default".to_string());
    let same = install(m, run, false, false).unwrap();
    assert_eq!(same.dependencies.get("heylib"), Some(&VersionSpec::Release(1)));
}

#[test]
fn install_reports_the_last_failure() {
    let m = manifest(&[("heylib", 1)], &[]);
    let mut run = InstallRun::start(InputTree::new(), &vec![]);
    run.failed(CliError::BackendFailure("first".to_string()));
    run.fetched(component("heylib", VersionSpec::Release(7)), "default".to_string());
    run.failed(CliError::MissingComponent("other".to_string()));
    assert!(run.tree.contains_key("heylib"));
    let r = install(m, run, true, false);
    assert_eq!(r.err(), Some(CliError::MissingComponent("other".to_string())));
}

#[test]
fn start_removes_only_requested_entries() {
    let mut tree = InputTree::new();
    tree.insert("heylib".to_string(), Lock { version: VersionSpec::Release(1), environment: "default".to_string() });
    tree.insert("libz".to_string(), Lock { version: VersionSpec::Release(4), environment: "default".to_string() });
    let run = InstallRun::start(tree, &vec![parse_component("heylib=2")]);
    assert!(!run.tree.contains_key("heylib"));
    assert_eq!(
        run.tree.get("libz"),
        Some(&Lock { version: VersionSpec::Release(4), environment: "default".to_string() })
    );
    assert!(run.installed.is_empty());
    assert!(run.error.is_none());
}

#[test]
fn partial_failure_keeps_the_others_installed() {
    let plan = deps(&[("a", 1), ("b", 2), ("c", 3)]);
    let fetched = vec![Some("default".to_string()), None, Some("default".to_string())];
    let (tree, result) = install_all(InputTree::new(), &plan, &fetched);
    assert_eq!(result, Err(CliError::InstallFailure));
    assert_eq!(tree.len(), 2);
    assert_eq!(tree.get("a"), Some(&Lock { version: VersionSpec::Release(1), environment: "default".to_string() }));
    assert_eq!(tree.get("c"), Some(&Lock { version: VersionSpec::Release(3), environment: "default".to_string() }));
    assert_eq!(tree.get("b"), None);
}

#[test]
fn missing_outcome_counts_as_failure() {
    let plan = deps(&[("a", 1), ("b", 2)]);
    let (tree, result) = install_all(InputTree::new(), &plan, &vec![Some("default".to_string())]);
    assert_eq!(result, Err(CliError::InstallFailure));
    assert_eq!(tree.len(), 1);
}

#[test]
fn reinstall_gives_the_same_tree() {
    let plan = deps(&[("a", 1), ("b", 2)]);
    let fetched = vec![Some("default".to_string()), Some("default".to_string())];
    let (once, r1) = install_all(InputTree::new(), &plan, &fetched);
    assert_eq!(r1, Ok(()));
    let mut stale = InputTree::new();
    stale.insert("old".to_string(), Lock { version: VersionSpec::Release(9), environment: "xenial".to_string() });
    stale.insert("a".to_string(), Lock { version: VersionSpec::Release(8), environment: "xenial".to_string() });
    let (twice, r2) = install_all(stale, &plan, &fetched);
    assert_eq!(r2, Ok(()));
    assert_eq!(once.len(), twice.len());
    for i in 0..once.len() {
        assert_eq!(once.name_at(i), twice.name_at(i));
        assert_eq!(once.value_at(i), twice.value_at(i));
    }
    assert_eq!(twice.get("old"), None);
}

#[test]
fn uninstall_removes_from_manifest_and_tree() {
    let m = manifest(&[("heylib", 1), ("libz", 4)], &[("gtest", 9)]);
    let mut tree = InputTree::new();
    tree.insert("heylib".to_string(), Lock { version: VersionSpec::Release(1), environment: "default".to_string() });
    let (m2, t2) = uninstall(m, tree, &vec!["heylib".to_string()], true, false).unwrap();
    assert_eq!(m2.dependencies.len(), 1);
    assert_eq!(m2.dependencies.get("libz"), Some(&VersionSpec::Release(4)));
    assert_eq!(m2.dev_dependencies.len(), 1);
    assert_eq!(t2.len(), 0);
}

#[test]
fn uninstall_of_absent_name_fails_before_anything_is_removed() {
    let m = manifest(&[("heylib", 1)], &[("gtest", 9)]);
    let r = uninstall(m, InputTree::new(), &vec!["heylib".to_string(), "gtest".to_string()], true, false);
    assert_eq!(r.err(), Some(CliError::MissingComponent("gtest".to_string())));
    let m = manifest(&[("heylib", 1)], &[("gtest", 9)]);
    let r = uninstall(m, InputTree::new(), &vec!["gtest".to_string()], false, true);
    assert!(r.is_ok());
}

#[test]
fn uninstall_twice_the_same_name_fails() {
    let m = manifest(&[("heylib", 1)], &[]);
    let r = uninstall(m, InputTree::new(), &vec!["heylib".to_string(), "heylib".to_string()], true, false);
    assert_eq!(r.err(), Some(CliError::MissingComponent("heylib".to_string())));
}

#[test]
fn uninstall_without_save_ignores_missing_directories() {
    let m = manifest(&[("heylib", 1)], &[]);
    let (m2, t2) = uninstall(m, InputTree::new(), &vec!["nothere".to_string()], false, false).unwrap();
    assert_eq!(m2.dependencies.len(), 1);
    assert_eq!(t2.len(), 0);
}
