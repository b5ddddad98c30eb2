//! An Artifactory server as artifact store: where things lie on it, what its
//! listings say, and what a publish sends.

use vstd::prelude::*;
use vstd::string::*;
use vstd::utf8::encode_utf8;
use crate::errors::CliError;
use crate::manifest::Component;
use crate::storage::sorting::{descending, sort_descending};
use crate::version::{decimal, decimal_text, decimal_u32, parse_u32, VersionSpec};

verus! {

/// The credentials that a publish presents.
pub struct Credentials {
    /// Upload username.
    pub username: String,
    /// Upload password.
    pub password: String,
}

impl Clone for Credentials {
    fn clone(&self) -> (r: Self)
        ensures
            r == *self,
    {
        Credentials { username: self.username.clone(), password: self.password.clone() }
    }
}

impl Credentials {
    /// What to show in place of the password: its length in bytes and nothing of
    /// its content.
    pub fn password_mask(&self) -> (r: String)
        ensures
            r@ == "*** ("@ + decimal(encode_utf8(self.password@).len()) + " characters)"@,
    {
        let n = self.password.as_str().as_bytes_vec().len();
        let mut r = String::from_str("*** (");
        r.append(decimal_text(n as u64).as_str());
        r.append(" characters)");
        r
    }
}

/// Where the store is and how to publish to it.
pub struct ArtifactoryConfig {
    /// Location of the API master, for queries.
    pub master: String,
    /// Location of the slave, for fetching artifacts.
    pub slave: String,
    /// Release group name, for queries and uploads.
    pub release: String,
    /// Virtual group, for downloads.
    pub vgroup: String,
    /// Optional publish credentials.
    pub credentials: Option<Credentials>,
}

impl Clone for ArtifactoryConfig {
    fn clone(&self) -> (r: Self)
        ensures
            r == *self,
    {
        let credentials = match &self.credentials {
            Some(c) => Some(c.clone()),
            None => None,
        };
        ArtifactoryConfig {
            master: self.master.clone(),
            slave: self.slave.clone(),
            release: self.release.clone(),
            vgroup: self.vgroup.clone(),
            credentials,
        }
    }
}

impl Default for ArtifactoryConfig {
    fn default() -> (r: Self)
        ensures
            r.master@.len() == 0,
            r.slave@.len() == 0,
            r.release@.len() == 0,
            r.vgroup@.len() == 0,
            r.credentials is None,
    {
        ArtifactoryConfig {
            master: String::new(),
            slave: String::new(),
            release: String::new(),
            vgroup: String::new(),
            credentials: None,
        }
    }
}

/// Where the tarball of a release lies:
/// `<slave>/<vgroup>/env/<env>/<name>/<version>/<name>.tar.gz`.
pub open spec fn env_url(slave: Seq<char>, vgroup: Seq<char>, env: Seq<char>, name: Seq<char>, version: u32) -> Seq<char> {
    slave + "/"@ + vgroup + "/env/"@ + env + "/"@ + name + "/"@ + decimal(version as nat) + "/"@ + name
        + ".tar.gz"@
}

/// Where the versions of a component are listed:
/// `<master>/api/storage/<release>/env/<env>/<name>`.
pub open spec fn listing_url(master: Seq<char>, release: Seq<char>, env: Seq<char>, name: Seq<char>) -> Seq<char> {
    master + "/api/storage/"@ + release + "/env/"@ + env + "/"@ + name
}

/// The address of a component's tarball in one of the environment trees.
pub fn get_dependency_env_url(art_cfg: &ArtifactoryConfig, name: &str, version: u32, env: &str) -> (url: String)
    ensures
        url@ == env_url(art_cfg.slave@, art_cfg.vgroup@, env@, name@, version),
{
    let mut url = art_cfg.slave.clone();
    url.append("/");
    url.append(art_cfg.vgroup.as_str());
    url.append("/env/");
    url.append(env);
    url.append("/");
    url.append(name);
    url.append("/");
    url.append(decimal_text(version as u64).as_str());
    url.append("/");
    url.append(name);
    url.append(".tar.gz");
    url
}

/// The address at which the store lists the versions of a component.
pub fn get_storage_url(art_cfg: &ArtifactoryConfig, name: &str, env: &str) -> (url: String)
    ensures
        url@ == listing_url(art_cfg.master@, art_cfg.release@, env@, name@),
{
    let mut url = art_cfg.master.clone();
    url.append("/api/storage/");
    url.append(art_cfg.release.as_str());
    url.append("/env/");
    url.append(env);
    url.append("/");
    url.append(name);
    url
}

/// The first position at or after `from` that holds no `/`, or the length of `s`.
pub open spec fn skip_slashes(s: Seq<char>, from: int) -> int
    decreases s.len() - from,
{
    if from >= s.len() {
        s.len() as int
    } else if s[from] != '/' {
        from
    } else {
        skip_slashes(s, from + 1)
    }
}

/// The end of `s` once the `/` before position `to` are dropped.
pub open spec fn drop_slashes(s: Seq<char>, to: int) -> int
    decreases to,
{
    if to <= 0 {
        0
    } else if s[to - 1] != '/' {
        to
    } else {
        drop_slashes(s, to - 1)
    }
}

/// `s` without the `/` at its start and at its end.
pub open spec fn trimmed(s: Seq<char>) -> Seq<char> {
    let a = skip_slashes(s, 0);
    let b = drop_slashes(s, s.len() as int);
    if a >= b {
        Seq::empty()
    } else {
        s.subrange(a, b)
    }
}

/// Drops the `/` at both ends of an entry of a listing.
pub fn trim_slashes(uri: &str) -> (r: &str)
    ensures
        r@ == trimmed(uri@),
{
    let len = uri.unicode_len();
    let mut a: usize = 0;
    while a < len && uri.get_char(a) == '/'
        invariant
            len == uri@.len(),
            a <= len,
            skip_slashes(uri@, 0) == skip_slashes(uri@, a as int),
        decreases len - a,
    {
        a += 1;
    }
    let mut b: usize = len;
    while b > 0 && uri.get_char(b - 1) == '/'
        invariant
            len == uri@.len(),
            b <= len,
            drop_slashes(uri@, len as int) == drop_slashes(uri@, b as int),
        decreases b,
    {
        b -= 1;
    }
    if a >= b {
        let r = uri.substring_char(0, 0);
        proof {
            assert(r@ =~= Seq::<char>::empty());
        }
        r
    } else {
        uri.substring_char(a, b)
    }
}

/// The release numbers among the first `n` entries of a listing, in their order:
/// each entry is trimmed of `/`, and those that are no decimal number are passed
/// over.
pub open spec fn listed_versions(uris: Seq<String>, n: int) -> Seq<u32>
    decreases n,
{
    if n <= 0 {
        Seq::empty()
    } else {
        let rest = listed_versions(uris, n - 1);
        match decimal_u32(trimmed(uris[n - 1]@)) {
            Some(v) => rest.push(v),
            None => rest,
        }
    }
}

fn read_versions(uris: &Vec<String>) -> (r: Vec<u32>)
    ensures
        r@ == versions_of(uris@),
{
    let mut r: Vec<u32> = Vec::new();
    let mut i: usize = 0;
    while i < uris.len()
        invariant
            i <= uris@.len(),
            r@ == listed_versions(uris@, i as int),
        decreases uris@.len() - i,
    {
        match parse_u32(trim_slashes(uris[i].as_str())) {
            Some(v) => {
                r.push(v);
            },
            None => {},
        }
        i += 1;
    }
    r
}

/// The release numbers that a listing of the store holds, largest first. `uris`
/// holds the `uri` of each child of the listing.
pub fn get_storage_versions(uris: &Vec<String>) -> (r: Vec<u32>)
    ensures
        descending(r@),
        r@.to_multiset() == versions_of(uris@).to_multiset(),
{
    let all = read_versions(uris);
    sort_descending(&all)
}

/// The text of the failure that an empty or useless listing gives.
pub open spec fn no_versions_text() -> Seq<char> {
    "No version information found on API"@
}

/// The release numbers that a listing holds, in their order.
pub open spec fn versions_of(uris: Seq<String>) -> Seq<u32> {
    listed_versions(uris, uris.len() as int)
}

/// Whether `r` answers the question for the largest release of a listing: the
/// largest number that the listing holds, or a `BackendFailure` where it holds
/// none.
pub open spec fn largest_or_failure(uris: Seq<String>, r: Result<u32, CliError>) -> bool {
    match r {
        Ok(v) => versions_of(uris).contains(v) && forall|i: int|
            0 <= i < versions_of(uris).len() ==> versions_of(uris)[i] <= v,
        Err(e) => versions_of(uris).len() == 0 && (e matches CliError::BackendFailure(text) && text@
            == no_versions_text()),
    }
}

/// Whether `c` is the release `version` of the component `name` in the
/// environment `env`, with the address of its tarball.
pub open spec fn is_release_of(c: Component, cfg: ArtifactoryConfig, name: Seq<char>, env: Seq<char>, version: u32) -> bool {
    &&& c.name@ == name
    &&& c.version == VersionSpec::Release(version)
    &&& c.location@ == env_url(cfg.slave@, cfg.vgroup@, env, name, version)
}

/// Whether `r` answers the question for the newest release of a component: its
/// largest release, or a `BackendFailure` where the listing holds none.
pub open spec fn latest_or_failure(cfg: ArtifactoryConfig, name: Seq<char>, env: Seq<char>, uris: Seq<String>, r: Result<
    Component,
    CliError,
>) -> bool {
    match r {
        Ok(c) => c.version matches VersionSpec::Release(v) && largest_or_failure(uris, Ok(v)) && is_release_of(
            c,
            cfg,
            name,
            env,
            v,
        ),
        Err(e) => largest_or_failure(uris, Err(e)),
    }
}

/// The largest release number of a listing. A listing without any release number
/// is a `BackendFailure`.
pub fn get_storage_as_u32(uris: &Vec<String>) -> (r: Result<u32, CliError>)
    ensures
        largest_or_failure(uris@, r),
{
    let all = read_versions(uris);
    if all.len() == 0 {
        return Err(CliError::BackendFailure(String::from_str("No version information found on API")));
    }
    let mut best: u32 = all[0];
    let mut i: usize = 1;
    while i < all.len()
        invariant
            1 <= i <= all@.len(),
            all@.contains(best),
            forall|j: int| 0 <= j < i ==> all@[j] <= best,
        decreases all@.len() - i,
    {
        if all[i] > best {
            best = all[i];
        }
        i += 1;
    }
    Ok(best)
}

/// The component `name` at release `version` in the environment `env`, with the
/// address of its tarball.
pub fn get_component(art_cfg: &ArtifactoryConfig, name: &str, version: u32, env: &str) -> (c: Component)
    ensures
        is_release_of(c, *art_cfg, name@, env@, version),
{
    Component {
        location: get_dependency_env_url(art_cfg, name, version, env),
        version: VersionSpec::Release(version),
        name: String::from_str(name),
    }
}

/// The newest release of a component, given the listing of its versions.
pub fn get_dependency_url_latest(art_cfg: &ArtifactoryConfig, name: &str, env: &str, uris: &Vec<String>) -> (r: Result<
    Component,
    CliError,
>)
    ensures
        latest_or_failure(*art_cfg, name@, env@, uris@, r),
{
    match get_storage_as_u32(uris) {
        Ok(v) => Ok(get_component(art_cfg, name, v, env)),
        Err(e) => Err(e),
    }
}

/// The component to fetch: the release asked for or, where none is named, the
/// newest of the listing.
pub fn get_tarball_uri(art_cfg: &ArtifactoryConfig, name: &str, version: Option<u32>, env: &str, uris: &Vec<String>) -> (r:
    Result<Component, CliError>)
    ensures
        match version {
            Some(v) => r matches Ok(c) && is_release_of(c, *art_cfg, name@, env@, v),
            None => latest_or_failure(*art_cfg, name@, env@, uris@, r),
        },
{
    match version {
        Some(v) => Ok(get_component(art_cfg, name, v, env)),
        None => get_dependency_url_latest(art_cfg, name, env, uris),
    }
}

/// The base64 text, in the standard alphabet with padding, of a run of bytes.
pub uninterp spec fn base64_text(bytes: Seq<u8>) -> Seq<char>;

/// The SHA-1 digest of a run of bytes, written as hexadecimal digits.
pub uninterp spec fn sha1_hex(bytes: Seq<u8>) -> Seq<char>;

/// Encodes bytes with `base64::encode`. Trusted: the result is the standard
/// base64 text of the bytes and depends on nothing else.
#[allow(deprecated)]
#[verifier::external_body]
fn base64_encode(data: &Vec<u8>) -> (r: String)
    ensures
        r@ == base64_text(data@),
{
    base64::encode(data)
}

/// Hashes bytes with `sha1::Sha1` (`new`, `update`, `digest`) and writes the digest
/// with its `to_string`. Trusted: the result is the hexadecimal SHA-1 digest of the
/// bytes and depends on nothing else.
#[verifier::external_body]
fn sha1_digest(data: &Vec<u8>) -> (r: String)
    ensures
        r@ == sha1_hex(data@),
{
    let mut sha = sha1::Sha1::new();
    sha.update(data);
    sha.digest().to_string()
}

/// What one upload sends: the address, the `Authorization` header and the
/// checksum of the body for the `X-Checksum-Sha1` header.
#[derive(Debug, PartialEq, Eq)]
pub struct UploadRequest {
    /// The address to `PUT` to.
    pub full_uri: String,
    /// The value of the `Authorization` header.
    pub authorization: String,
    /// The SHA-1 digest of the body, in hexadecimal.
    pub checksum: String,
}

/// The address of an upload: `<slave>/<release>/<uri>`.
pub open spec fn upload_address(slave: Seq<char>, release: Seq<char>, uri: Seq<char>) -> Seq<char> {
    slave + "/"@ + release + "/"@ + uri
}

/// The text that basic authentication encodes: `<username>:<password>`.
pub open spec fn credentials_text(username: Seq<char>, password: Seq<char>) -> Seq<char> {
    username + ":"@ + password
}

/// Puts an upload together from the encoded credentials and the checksum.
pub fn upload_request(arti: &ArtifactoryConfig, uri: &str, encoded_credentials: &str, checksum: String) -> (r: UploadRequest)
    ensures
        r.full_uri@ == upload_address(arti.slave@, arti.release@, uri@),
        r.authorization@ == "Basic "@ + encoded_credentials@,
        r.checksum == checksum,
{
    let mut full_uri = arti.slave.clone();
    full_uri.append("/");
    full_uri.append(arti.release.as_str());
    full_uri.append("/");
    full_uri.append(uri);
    let mut authorization = String::from_str("Basic ");
    authorization.append(encoded_credentials);
    UploadRequest { full_uri, authorization, checksum }
}

/// Prepares the upload of `body` to `uri` below the release group, with HTTP basic
/// authentication. Without credentials nothing can be published.
pub fn upload_artifact(arti: &ArtifactoryConfig, uri: &str, body: &Vec<u8>) -> (r: Result<UploadRequest, CliError>)
    ensures
        match arti.credentials {
            None => r == Err::<UploadRequest, CliError>(CliError::MissingBackendCredentials),
            Some(creds) => r matches Ok(req) && req.full_uri@ == upload_address(arti.slave@, arti.release@, uri@)
                && req.authorization@ == "Basic "@ + base64_text(
                encode_utf8(credentials_text(creds.username@, creds.password@)),
            ) && req.checksum@ == sha1_hex(body@),
        },
{
    match &arti.credentials {
        None => Err(CliError::MissingBackendCredentials),
        Some(creds) => {
            let mut auth = creds.username.clone();
            auth.append(":");
            auth.append(creds.password.as_str());
            let encoded = base64_encode(&auth.as_str().as_bytes_vec());
            let checksum = sha1_digest(body);
            Ok(upload_request(arti, uri, encoded.as_str(), checksum))
        },
    }
}

/// Judges the answer to one `PUT` of an upload: only status 201, "created", is a
/// success. `status_text` is the status as the answer shows it; `checksum_step`
/// says that the `PUT` was the second one, which deploys the checksum.
pub fn upload_outcome(status: u16, status_text: &str, full_uri: &str, checksum_step: bool) -> (r: Result<(), CliError>)
    ensures
        status == 201 <==> r is Ok,
        status != 201 ==> (r matches Err(CliError::UploadFailure(text)) && text@ == upload_failure_text(
            status_text@,
            full_uri@,
            checksum_step,
        )),
{
    if status == 201 {
        Ok(())
    } else {
        let mut text = String::from_str(status_text);
        text.append(" from PUT ");
        text.append(full_uri);
        if checksum_step {
            text.append(" (X-Checksum-Sha1)");
        } else {
            proof {
                assert(text@ + Seq::<char>::empty() =~= text@);
            }
        }
        Err(CliError::UploadFailure(text))
    }
}

/// The steps of a publication, in their order: each is one `PUT`.
#[derive(Clone, Copy, Debug, PartialEq, Eq, Structural)]
pub enum PublishStep {
    /// Upload the tarball.
    Tarball,
    /// Deploy the checksum of the tarball.
    TarballChecksum,
    /// Upload the lockfile.
    Lockfile,
    /// Deploy the checksum of the lockfile.
    LockfileChecksum,
}

/// The step that follows `step`, or nothing after the last one.
pub open spec fn step_after(step: PublishStep) -> Option<PublishStep> {
    match step {
        PublishStep::Tarball => Some(PublishStep::TarballChecksum),
        PublishStep::TarballChecksum => Some(PublishStep::Lockfile),
        PublishStep::Lockfile => Some(PublishStep::LockfileChecksum),
        PublishStep::LockfileChecksum => None,
    }
}

/// The text of the failure that a status other than "created" gives.
pub open spec fn upload_failure_text(status_text: Seq<char>, full_uri: Seq<char>, checksum_step: bool) -> Seq<char> {
    status_text + " from PUT "@ + full_uri + (if checksum_step {
        " (X-Checksum-Sha1)"@
    } else {
        Seq::<char>::empty()
    })
}

/// Judges the answer to one step of a publication and says what comes next. A
/// status other than 201 ends the publication with `UploadFailure`, whatever was
/// uploaded before: the release is published only when the last step was
/// answered with "created", and then nothing comes next.
pub fn publish_step(step: PublishStep, status: u16, status_text: &str, requests: &(UploadRequest, UploadRequest)) -> (r:
    Result<Option<PublishStep>, CliError>)
    ensures
        status == 201 ==> r == Ok::<Option<PublishStep>, CliError>(step_after(step)),
        status != 201 ==> (r matches Err(CliError::UploadFailure(text)) && text@ == upload_failure_text(
            status_text@,
            if step == PublishStep::Tarball || step == PublishStep::TarballChecksum {
                requests.0.full_uri@
            } else {
                requests.1.full_uri@
            },
            step == PublishStep::TarballChecksum || step == PublishStep::LockfileChecksum,
        )),
{
    let (uri, checksum_step, next) = match step {
        PublishStep::Tarball => (requests.0.full_uri.as_str(), false, Some(PublishStep::TarballChecksum)),
        PublishStep::TarballChecksum => (requests.0.full_uri.as_str(), true, Some(PublishStep::Lockfile)),
        PublishStep::Lockfile => (requests.1.full_uri.as_str(), false, Some(PublishStep::LockfileChecksum)),
        PublishStep::LockfileChecksum => (requests.1.full_uri.as_str(), true, None),
    };
    match upload_outcome(status, status_text, uri, checksum_step) {
        Ok(_) => Ok(next),
        Err(e) => Err(e),
    }
}

/// Judges the answer to a download: any status from 200 to 299 is a success, and
/// nothing is written for any other.
pub fn download_outcome(status: u16, status_text: &str) -> (r: Result<(), CliError>)
    ensures
        200 <= status < 300 <==> r is Ok,
        !(200 <= status < 300) ==> (r matches Err(CliError::BackendFailure(text)) && text@ == "GET request with "@
            + status_text@),
{
    if 200 <= status && status < 300 {
        Ok(())
    } else {
        let mut text = String::from_str("GET request with ");
        text.append(status_text);
        Err(CliError::BackendFailure(text))
    }
}

/// Where a published artifact goes, below the release group:
/// `env/<env>/<name>/<version>/`.
pub open spec fn publish_prefix(env: Seq<char>, name: Seq<char>, version: u32) -> Seq<char> {
    "env/"@ + env + "/"@ + name + "/"@ + decimal(version as nat) + "/"@
}

fn publish_dir(name: &str, version: u32, env: &str) -> (r: String)
    ensures
        r@ == publish_prefix(env@, name@, version),
{
    let mut r = String::from_str("env/");
    r.append(env);
    r.append("/");
    r.append(name);
    r.append("/");
    r.append(decimal_text(version as u64).as_str());
    r.append("/");
    r
}

/// Everything needed to use an Artifactory server as artifact store.
pub struct ArtifactoryBackend {
    /// Artifactory config and credentials.
    pub config: ArtifactoryConfig,
    /// Cache directory.
    pub cache: String,
}

impl ArtifactoryBackend {
    /// A backend for the store of `cfg` that caches below `cache`.
    pub fn new(cfg: &ArtifactoryConfig, cache: &str) -> (r: Result<Self, CliError>)
        ensures
            r matches Ok(b) && b.config == *cfg && b.cache@ == cache@,
    {
        let backend = ArtifactoryBackend { config: cfg.clone(), cache: String::from_str(cache) };
        Ok(backend)
    }

    /// The address that lists the versions of `name` in the environment `loc`.
    pub fn get_versions_url(&self, name: &str, loc: &str) -> (url: String)
        ensures
            url@ == listing_url(self.config.master@, self.config.release@, loc@, name@),
    {
        get_storage_url(&self.config, name, loc)
    }

    /// The releases of a component, largest first, given its listing.
    pub fn get_versions(&self, uris: &Vec<String>) -> (r: Vec<u32>)
        ensures
            descending(r@),
            r@.to_multiset() == versions_of(uris@).to_multiset(),
    {
        get_storage_versions(uris)
    }

    /// The newest release of a component, given its listing.
    pub fn get_latest_version(&self, uris: &Vec<String>) -> (r: Result<u32, CliError>)
        ensures
            largest_or_failure(uris@, r),
    {
        get_storage_as_u32(uris)
    }

    /// The component to fetch for `name` in the environment `loc`: the release
    /// asked for or, where none is named, the newest of the listing `uris`.
    pub fn get_component_info(&self, name: &str, version: Option<u32>, loc: &str, uris: &Vec<String>) -> (r: Result<
        Component,
        CliError,
    >)
        ensures
            match version {
                Some(v) => r matches Ok(c) && is_release_of(c, self.config, name@, loc@, v),
                None => latest_or_failure(self.config, name@, loc@, uris@, r),
            },
    {
        get_tarball_uri(&self.config, name, version, loc, uris)
    }

    /// Prepares the publication of a release: the upload of the tarball, which goes
    /// first, and that of the lockfile. The release counts as published only when
    /// both uploads were answered with "created".
    pub fn publish_artifact(&self, name: &str, version: u32, env: &str, tarball: &Vec<u8>, lockfile: &Vec<u8>) -> (r: Result<
        (UploadRequest, UploadRequest),
        CliError,
    >)
        ensures
            match self.config.credentials {
                None => r == Err::<(UploadRequest, UploadRequest), CliError>(CliError::MissingBackendCredentials),
                Some(creds) => {
                    let auth = "Basic "@ + base64_text(encode_utf8(credentials_text(creds.username@, creds.password@)));
                    &&& r matches Ok(pair)
                    &&& pair.0.full_uri@ == upload_address(
                        self.config.slave@,
                        self.config.release@,
                        publish_prefix(env@, name@, version) + name@ + ".tar.gz"@,
                    )
                    &&& pair.0.authorization@ == auth
                    &&& pair.0.checksum@ == sha1_hex(tarball@)
                    &&& pair.1.full_uri@ == upload_address(
                        self.config.slave@,
                        self.config.release@,
                        publish_prefix(env@, name@, version) + "lockfile.json"@,
                    )
                    &&& pair.1.authorization@ == auth
                    &&& pair.1.checksum@ == sha1_hex(lockfile@)
                },
            },
    {
        let mut tar_uri = publish_dir(name, version, env);
        tar_uri.append(name);
        tar_uri.append(".tar.gz");
        let mut lf_uri = publish_dir(name, version, env);
        lf_uri.append("lockfile.json");
        match upload_artifact(&self.config, tar_uri.as_str(), tarball) {
            Err(e) => Err(e),
            Ok(first) => match upload_artifact(&self.config, lf_uri.as_str(), lockfile) {
                Err(e) => Err(e),
                Ok(second) => Ok((first, second)),
            },
        }
    }

    /// The root under which everything fetched through this backend is cached.
    pub fn get_cache_dir(&self) -> (dir: String)
        ensures
            dir@ == self.cache@,
    {
        self.cache.clone()
    }
}

} // verus!
