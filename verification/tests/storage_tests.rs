use lal::cache::{get_entry_dir, get_input_dir, plan_ensure, CacheIndex, EnsurePlan};
use lal::clean::{clean, clean_in_dir};
use lal::errors::CliError;
use lal::manifest::Component;
use lal::query::{check_query, query, QueryPlan};
use lal::storage::artifactory::{
    download_outcome, get_dependency_env_url, get_dependency_url_latest, get_storage_as_u32, get_storage_url,
    get_storage_versions, get_tarball_uri, publish_step, trim_slashes, upload_artifact, upload_outcome,
    upload_request, ArtifactoryBackend, ArtifactoryConfig, Credentials, PublishStep,
};
use lal::storage::sorting::sort_descending;
use lal::version::{decimal_text, parse_u32};
use lal::version::VersionSpec;

fn config(credentials: Option<Credentials>) -> ArtifactoryConfig {
    ArtifactoryConfig {
        master: "https://master.example/artifactory".to_string(),
        slave: "https://slave.example/artifactory".to_string(),
        release: "CME-release".to_string(),
        vgroup: "CME-group".to_string(),
        credentials,
    }
}

fn creds() -> Credentials {
    Credentials { username: "user".to_string(), password: "pass".to_string() }
}

fn uris(xs: &[&str]) -> Vec<String> {
    xs.iter().map(|x| x.to_string()).collect()
}

#[test]
fn tarball_url_follows_the_store_layout() {
    let url = get_dependency_env_url(&config(None), "heylib", 12, "xenial");
    assert_eq!(url, "https://slave.example/artifactory/CME-group/env/xenial/heylib/12/heylib.tar.gz");
}

#[test]
fn listing_url_follows_the_store_layout() {
    let url = get_storage_url(&config(None), "heylib", "xenial");
    assert_eq!(url, "https://master.example/artifactory/api/storage/CME-release/env/xenial/heylib");
}

#[test]
fn trim_slashes_drops_both_ends() {
    assert_eq!(trim_slashes("/12"), "12");
    assert_eq!(trim_slashes("//12//"), "12");
    assert_eq!(trim_slashes("1/2"), "1/2");
    assert_eq!(trim_slashes("///"), "");
    assert_eq!(trim_slashes(""), "");
}

#[test]
fn versions_are_listed_largest_first() {
    let v = get_storage_versions(&uris(&["/3", "/10", "/latest", "/1", "/10", "/2/"]));
    assert_eq!(v, vec![10, 10, 3, 2, 1]);
    let none = get_storage_versions(&uris(&["/x", "/-1"]));
    assert_eq!(none, Vec::<u32>::new());
}

#[test]
fn latest_version_is_the_maximum() {
    assert_eq!(get_storage_as_u32(&uris(&["/3", "/10", "/1"])), Ok(10));
    assert_eq!(
        get_storage_as_u32(&uris(&["/x"])),
        Err(CliError::BackendFailure("No version information found on API".to_string()))
    );
    assert_eq!(
        get_storage_as_u32(&uris(&[])),
        Err(CliError::BackendFailure("No version information found on API".to_string()))
    );
}

#[test]
fn component_info_with_and_without_version() {
    let cfg = config(None);
    let c = get_tarball_uri(&cfg, "heylib", Some(3), "default", &uris(&[])).unwrap();
    assert_eq!(
        c,
        Component {
            name: "heylib".to_string(),
            version: VersionSpec::Release(3),
            location: "https://slave.example/artifactory/CME-group/env/default/heylib/3/heylib.tar.gz".to_string(),
        }
    );
    let c = get_tarball_uri(&cfg, "heylib", None, "default", &uris(&["/1", "/7"])).unwrap();
    assert_eq!(c.version, VersionSpec::Release(7));
    assert_eq!(c.location, "https://slave.example/artifactory/CME-group/env/default/heylib/7/heylib.tar.gz");
    let e = get_dependency_url_latest(&cfg, "heylib", "default", &uris(&[]));
    assert_eq!(e, Err(CliError::BackendFailure("No version information found on API".to_string())));
}

#[test]
fn upload_needs_credentials() {
    let r = upload_artifact(&config(None), "env/default/heylib/1/heylib.tar.gz", &vec![1, 2, 3]);
    assert_eq!(r, Err(CliError::MissingBackendCredentials));
}

#[test]
fn upload_request_carries_auth_and_checksum() {
    let body = b"Hello World!".to_vec();
    let r = upload_artifact(&config(Some(creds())), "env/default/heylib/1/heylib.tar.gz", &body).unwrap();
    assert_eq!(r.full_uri, "https://slave.example/artifactory/CME-release/env/default/heylib/1/heylib.tar.gz");
    assert_eq!(r.authorization, "Basic dXNlcjpwYXNz");
    assert_eq!(r.checksum, "2ef7bde608ce5404e97d5f042f95f89f1c232871");
    let empty = upload_artifact(&config(Some(creds())), "x", &vec![]).unwrap();
    assert_eq!(empty.checksum, "da39a3ee5e6b4b0d3255bfef95601890afd80709");
}

#[test]
fn upload_request_from_parts() {
    let r = upload_request(&config(None), "a/b", "abcd", "0123".to_string());
    assert_eq!(r.full_uri, "https://slave.example/artifactory/CME-release/a/b");
    assert_eq!(r.authorization, "Basic abcd");
    assert_eq!(r.checksum, "0123");
}

#[test]
fn only_created_counts_as_uploaded() {
    assert_eq!(upload_outcome(201, "201 Created", "http://x/y", false), Ok(()));
    assert_eq!(
        upload_outcome(200, "200 OK", "http://x/y", false),
        Err(CliError::UploadFailure("200 OK from PUT http://x/y".to_string()))
    );
    assert_eq!(
        upload_outcome(404, "404 Not Found", "http://x/y", true),
        Err(CliError::UploadFailure("404 Not Found from PUT http://x/y (X-Checksum-Sha1)".to_string()))
    );
}

#[test]
fn download_fails_on_non_success_status() {
    assert_eq!(download_outcome(200, "200 OK"), Ok(()));
    assert_eq!(download_outcome(299, "299"), Ok(()));
    assert_eq!(
        download_outcome(404, "404 Not Found"),
        Err(CliError::BackendFailure("GET request with 404 Not Found".to_string()))
    );
    assert_eq!(download_outcome(300, "300"), Err(CliError::BackendFailure("GET request with 300".to_string())));
    assert_eq!(download_outcome(199, "199"), Err(CliError::BackendFailure("GET request with 199".to_string())));
}

#[test]
fn backend_publishes_tarball_then_lockfile() {
    let backend = ArtifactoryBackend::new(&config(Some(creds())), "/home/me/.lal/cache").unwrap();
    assert_eq!(backend.get_cache_dir(), "/home/me/.lal/cache");
    assert_eq!(backend.config.vgroup, "CME-group");
    let (tar, lock) = backend.publish_artifact("heylib", 4, "default", &b"Hello World!".to_vec(), &vec![]).unwrap();
    assert_eq!(tar.full_uri, "https://slave.example/artifactory/CME-release/env/default/heylib/4/heylib.tar.gz");
    assert_eq!(lock.full_uri, "https://slave.example/artifactory/CME-release/env/default/heylib/4/lockfile.json");
    assert_eq!(tar.checksum, "2ef7bde608ce5404e97d5f042f95f89f1c232871");
    assert_eq!(lock.checksum, "da39a3ee5e6b4b0d3255bfef95601890afd80709");
    assert_eq!(tar.authorization, lock.authorization);
    let anonymous = ArtifactoryBackend::new(&config(None), "/c").unwrap();
    assert_eq!(
        anonymous.publish_artifact("heylib", 4, "default", &vec![], &vec![]),
        Err(CliError::MissingBackendCredentials)
    );
}

#[test]
fn backend_answers_from_listings() {
    let backend = ArtifactoryBackend::new(&config(None), "/c").unwrap();
    assert_eq!(
        backend.get_versions_url("heylib", "default"),
        "https://master.example/artifactory/api/storage/CME-release/env/default/heylib"
    );
    assert_eq!(backend.get_versions(&uris(&["/1", "/3", "/2"])), vec![3, 2, 1]);
    assert_eq!(backend.get_latest_version(&uris(&["/1", "/3", "/2"])), Ok(3));
    let c = backend.get_component_info("heylib", None, "default", &uris(&["/1", "/3"])).unwrap();
    assert_eq!(c.version, VersionSpec::Release(3));
}

#[test]
fn password_is_masked() {
    assert_eq!(creds().password_mask(), "*** (4 characters)");
    let c = Credentials { username: "u".to_string(), password: "pässword".to_string() };
    assert_eq!(c.password_mask(), "*** (9 characters)");
}

#[test]
fn cache_entries_lie_three_levels_deep() {
    let d = get_entry_dir("/cache", "xenial", "heylib", &VersionSpec::Release(3));
    assert_eq!(d, "/cache/environments/xenial/heylib/3");
    let s = get_entry_dir("/cache", "xenial", "heylib", &VersionSpec::Stash("blah".to_string()));
    assert_eq!(s, "/cache/stash/heylib/blah");
    assert_eq!(get_input_dir("heylib"), "./INPUT/heylib");
}

#[test]
fn cached_release_needs_no_network() {
    let v = VersionSpec::Release(3);
    let first = plan_ensure("/cache", "default", "heylib", &v, false).unwrap();
    assert!(first.needs_network());
    assert_eq!(
        first,
        EnsurePlan::Download {
            entry: "/cache/environments/default/heylib/3".to_string(),
            target: "./INPUT/heylib".to_string()
        }
    );
    let again = plan_ensure("/cache", "default", "heylib", &v, true).unwrap();
    assert!(!again.needs_network());
    assert_eq!(
        again,
        EnsurePlan::Extract {
            entry: "/cache/environments/default/heylib/3".to_string(),
            target: "./INPUT/heylib".to_string()
        }
    );
}

#[test]
fn stash_is_never_fetched() {
    let v = VersionSpec::Stash("blah".to_string());
    assert_eq!(
        plan_ensure("/cache", "default", "heylib", &v, false),
        Err(CliError::MissingComponent("heylib".to_string()))
    );
    let there = plan_ensure("/cache", "default", "heylib", &v, true).unwrap();
    assert!(!there.needs_network());
}

#[test]
fn janitor_deletes_only_entries_older_than_the_cutoff() {
    let day: i64 = 86_400;
    let now = 10 * day + 100;
    let doomed = clean(now, 0, 5, &vec![Some(0), Some(10 * day)]);
    assert_eq!(doomed, vec![0]);
}

#[test]
fn janitor_cutoff_is_strict_and_skips_unreadable() {
    let day: i64 = 86_400;
    let now = 10 * day;
    assert_eq!(clean(now, 0, 5, &vec![Some(5 * day)]), Vec::<usize>::new());
    assert_eq!(clean(now, 1, 5, &vec![Some(5 * day)]), vec![0]);
    assert_eq!(clean(now, 0, 5, &vec![Some(5 * day - 1), None, Some(5 * day + 1), Some(-3)]), vec![0, 3]);
    assert_eq!(clean(i64::MAX, 999_999_999, i64::MIN, &vec![Some(i64::MAX)]), vec![0]);
    assert_eq!(clean(i64::MIN, 0, i64::MAX, &vec![Some(i64::MIN)]), Vec::<usize>::new());
    assert_eq!(clean_in_dir(1_000_000_000, &vec![Some(0), Some(1), Some(2)]), vec![0]);
}

#[test]
fn query_checks_name_and_environment() {
    assert_eq!(query(Some("default"), "hello", false), Ok(QueryPlan { env: "default".to_string(), last: false }));
    assert_eq!(query(Some("default"), "hello", true), Ok(QueryPlan { env: "default".to_string(), last: true }));
    assert_eq!(query(Some("default"), "Hello", true), Err(CliError::InvalidComponentName("Hello".to_string())));
    assert_eq!(query(None, "hello", true), Err(CliError::EnvironmentUnspecified));
    assert_eq!(query(None, "HELLO", true), Err(CliError::InvalidComponentName("HELLO".to_string())));
    assert_eq!(check_query(Some("e"), "a", "b", false), Err(CliError::InvalidComponentName("a".to_string())));
}

#[test]
fn ensure_twice_uses_the_cache_and_keeps_the_content() {
    let mut cache = CacheIndex::new();
    let v = VersionSpec::Release(1);
    let first = cache.plan("/cache", "default", "heylib", &v).unwrap();
    assert!(first.needs_network());
    let dir = get_entry_dir("/cache", "default", "heylib", &v);
    assert!(cache.store(dir.clone(), true, "aaaa".to_string()));
    let second = cache.plan("/cache", "default", "heylib", &v).unwrap();
    assert!(!second.needs_network());
    assert!(!cache.store(dir.clone(), true, "bbbb".to_string()));
    assert_eq!(cache.held.get(&dir), Some(&"aaaa".to_string()));
    assert_eq!(cache.held.len(), 1);
    let other = cache.plan("/cache", "xenial", "heylib", &v).unwrap();
    assert!(other.needs_network());
}

#[test]
fn restashing_overwrites_the_entry() {
    let mut cache = CacheIndex::new();
    let v = VersionSpec::Stash("blah".to_string());
    assert_eq!(
        cache.plan("/cache", "default", "heylib", &v),
        Err(CliError::MissingComponent("heylib".to_string()))
    );
    let dir = get_entry_dir("/cache", "default", "heylib", &v);
    assert!(cache.store(dir.clone(), false, "aaaa".to_string()));
    assert!(cache.store(dir.clone(), false, "bbbb".to_string()));
    assert_eq!(cache.held.get(&dir), Some(&"bbbb".to_string()));
    assert!(!cache.plan("/cache", "default", "heylib", &v).unwrap().needs_network());
}

#[test]
fn publication_succeeds_only_after_all_four_steps() {
    let backend = ArtifactoryBackend::new(&config(Some(creds())), "/c").unwrap();
    let requests = backend.publish_artifact("heylib", 4, "default", &vec![1], &vec![2]).unwrap();
    assert_eq!(publish_step(PublishStep::Tarball, 201, "201 Created", &requests), Ok(Some(PublishStep::TarballChecksum)));
    assert_eq!(
        publish_step(PublishStep::TarballChecksum, 201, "201 Created", &requests),
        Ok(Some(PublishStep::Lockfile))
    );
    assert_eq!(
        publish_step(PublishStep::Lockfile, 201, "201 Created", &requests),
        Ok(Some(PublishStep::LockfileChecksum))
    );
    assert_eq!(publish_step(PublishStep::LockfileChecksum, 201, "201 Created", &requests), Ok(None));
    assert_eq!(
        publish_step(PublishStep::Lockfile, 500, "500 Internal Server Error", &requests),
        Err(CliError::UploadFailure(
            "500 Internal Server Error from PUT https://slave.example/artifactory/CME-release/env/default/heylib/4/lockfile.json"
                .to_string()
        ))
    );
    assert_eq!(
        publish_step(PublishStep::TarballChecksum, 404, "404 Not Found", &requests),
        Err(CliError::UploadFailure(
            "404 Not Found from PUT https://slave.example/artifactory/CME-release/env/default/heylib/4/heylib.tar.gz (X-Checksum-Sha1)"
                .to_string()
        ))
    );
}

#[test]
fn numbers_are_read_and_written_in_decimal() {
    assert_eq!(parse_u32("0"), Some(0));
    assert_eq!(parse_u32("42"), Some(42));
    assert_eq!(parse_u32("+42"), Some(42));
    assert_eq!(parse_u32("0042"), Some(42));
    assert_eq!(parse_u32("4294967295"), Some(4294967295));
    assert_eq!(parse_u32("4294967296"), None);
    assert_eq!(parse_u32("99999999999999999999999999"), None);
    assert_eq!(parse_u32(""), None);
    assert_eq!(parse_u32("+"), None);
    assert_eq!(parse_u32("++1"), None);
    assert_eq!(parse_u32("-1"), None);
    assert_eq!(parse_u32("1 "), None);
    assert_eq!(parse_u32("12a"), None);
    assert_eq!(parse_u32("٣"), None);
    assert_eq!(decimal_text(0), "0");
    assert_eq!(decimal_text(9), "9");
    assert_eq!(decimal_text(10), "10");
    assert_eq!(decimal_text(4294967295), "4294967295");
    assert_eq!(decimal_text(u64::MAX), "18446744073709551615");
    for n in [0u32, 7, 10, 99, 100, 65535, 123456789] {
        assert_eq!(parse_u32(&n.to_string()), Some(n));
        assert_eq!(decimal_text(n as u64), n.to_string());
    }
}

#[test]
fn sorting_keeps_every_number() {
    assert_eq!(sort_descending(&vec![]), Vec::<u32>::new());
    assert_eq!(sort_descending(&vec![5]), vec![5]);
    assert_eq!(sort_descending(&vec![1, 3, 2, 3, 0, u32::MAX]), vec![u32::MAX, 3, 3, 2, 1, 0]);
}
