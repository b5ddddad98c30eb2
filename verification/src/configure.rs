//! The tool's configuration: the store, the cache, the known environments.

use vstd::prelude::*;
use vstd::string::*;
use crate::errors::CliError;
use crate::names::NameMap;

verus! {

/// A volume to mount into a build container.
#[derive(Debug, PartialEq, Eq)]
pub struct Mount {
    /// File or folder to mount.
    pub src: String,
    /// Location inside the container to mount it at.
    pub dest: String,
    /// Whether the mount is write protected inside the container.
    pub readonly: bool,
}

impl Clone for Mount {
    fn clone(&self) -> (r: Self)
        ensures
            r == *self,
    {
        Mount { src: self.src.clone(), dest: self.dest.clone(), readonly: self.readonly }
    }
}

/// The credentials that a publish presents.
pub struct Credentials {
    /// Upload username.
    pub username: String,
    /// Upload password.
    pub password: String,
}

impl Clone for Credentials {
    fn clone(&self) -> (r: Self)
        ensures
            r == *self,
    {
        Credentials { username: self.username.clone(), password: self.password.clone() }
    }
}

/// Where the artifact store is.
pub struct Artifactory {
    /// Location of the API master, for queries.
    pub master: String,
    /// Location of the slave, for fetching artifacts.
    pub slave: String,
    /// Release group name, for queries and uploads.
    pub release: String,
    /// Virtual group, for downloads.
    pub vgroup: String,
    /// Optional publish credentials.
    pub credentials: Option<Credentials>,
}

impl Clone for Artifactory {
    fn clone(&self) -> (r: Self)
        ensures
            r == *self,
    {
        let credentials = match &self.credentials {
            Some(c) => Some(c.clone()),
            None => None,
        };
        Artifactory {
            master: self.master.clone(),
            slave: self.slave.clone(),
            release: self.release.clone(),
            vgroup: self.vgroup.clone(),
            credentials,
        }
    }
}

impl Default for Artifactory {
    fn default() -> (r: Self)
        ensures
            r.master@.len() == 0,
            r.slave@.len() == 0,
            r.release@.len() == 0,
            r.vgroup@.len() == 0,
            r.credentials is None,
    {
        Artifactory {
            master: String::new(),
            slave: String::new(),
            release: String::new(),
            vgroup: String::new(),
            credentials: None,
        }
    }
}

/// The container image that an environment stands for.
#[derive(Debug, PartialEq, Eq)]
pub struct Container {
    /// The image's name.
    pub name: String,
    /// The image's tag.
    pub tag: String,
}

impl Clone for Container {
    fn clone(&self) -> (r: Self)
        ensures
            r == *self,
    {
        Container { name: self.name.clone(), tag: self.tag.clone() }
    }
}

impl View for Container {
    type V = Container;

    open spec fn view(&self) -> Container {
        *self
    }
}

/// An instant: whole seconds after the epoch, and nanoseconds on top.
#[derive(Clone, Copy, Debug, PartialEq, Eq, Structural)]
pub struct Timestamp {
    /// Whole seconds after the epoch.
    pub secs: i64,
    /// Nanoseconds after the whole second.
    pub nanos: u32,
}

impl Timestamp {
    /// The instant in nanoseconds after the epoch.
    pub open spec fn instant(&self) -> int {
        self.secs * 1_000_000_000 + self.nanos
    }
}

/// The number of seconds in a day.
pub const DAY: i64 = 86_400;

/// The configuration of the tool.
pub struct Config {
    /// Where the artifact store is.
    pub artifactory: Artifactory,
    /// Cache directory for releases and stashed builds.
    pub cache: String,
    /// The environments that are allowed and the container each stands for.
    pub environments: NameMap<Container>,
    /// When the last check for a newer version was made.
    pub upgrade_check: Timestamp,
    /// Extra volume mounts for the container.
    pub mounts: Vec<Mount>,
    /// Whether shells are interactive.
    pub interactive: bool,
}

/// The defaults that a new configuration is seeded with.
pub struct ConfigDefaults {
    /// Where the artifact store is.
    pub artifactory: Artifactory,
    /// The environments that are allowed and the container each stands for.
    pub environments: NameMap<Container>,
    /// Extra volume mounts for the container.
    pub mounts: Vec<Mount>,
}

impl Default for ConfigDefaults {
    fn default() -> (r: Self)
        ensures
            r.artifactory.credentials is None,
            r.environments.wf(),
            r.environments.map() == Map::<Seq<char>, Container>::empty(),
            r.mounts@.len() == 0,
    {
        ConfigDefaults { artifactory: Artifactory::default(), environments: NameMap::new(), mounts: Vec::new() }
    }
}

/// Those of the first `n` mounts whose source is present, in their order.
pub open spec fn present_mounts(mounts: Seq<Mount>, present: Seq<bool>, n: int) -> Seq<Mount>
    decreases n,
{
    if n <= 0 {
        Seq::empty()
    } else {
        let rest = present_mounts(mounts, present, n - 1);
        if n - 1 < present.len() && present[n - 1] {
            rest.push(mounts[n - 1])
        } else {
            rest
        }
    }
}

impl Config {
    /// A configuration seeded with `defaults`. The last check for a newer version
    /// is set two days before `now`, so that a new configuration always asks for
    /// one. Of the default mounts only those are kept whose source exists:
    /// `present` says so for each mount, in their order.
    pub fn new(defaults: ConfigDefaults, cache: String, now: Timestamp, present: &Vec<bool>) -> (c: Config)
        requires
            now.secs >= i64::MIN + 2 * DAY,
        ensures
            c.artifactory == defaults.artifactory,
            c.cache == cache,
            c.environments == defaults.environments,
            c.upgrade_check == (Timestamp { secs: (now.secs - 2 * DAY) as i64, nanos: now.nanos }),
            c.mounts@ == present_mounts(defaults.mounts@, present@, defaults.mounts@.len() as int),
            c.interactive,
    {
        let ConfigDefaults { artifactory, environments, mounts: candidates } = defaults;
        let mut mounts: Vec<Mount> = Vec::new();
        let mut i: usize = 0;
        while i < candidates.len()
            invariant
                i <= candidates@.len(),
                mounts@ == present_mounts(candidates@, present@, i as int),
            decreases candidates@.len() - i,
        {
            if i < present.len() && present[i] {
                mounts.push(candidates[i].clone());
            }
            i += 1;
        }
        Config {
            artifactory,
            cache,
            environments,
            upgrade_check: Timestamp { secs: now.secs - 2 * DAY, nanos: now.nanos },
            mounts,
            interactive: true,
        }
    }

    /// Accepts the configuration that was found, if any. No configuration is
    /// `MissingConfig`; one that defines an environment called `default` is
    /// `InvalidEnvironment`.
    pub fn read(found: Option<Config>) -> (r: Result<Config, CliError>)
        ensures
            match found {
                None => r == Err::<Config, CliError>(CliError::MissingConfig),
                Some(c) => if c.environments.map().contains_key("default"@) {
                    r == Err::<Config, CliError>(CliError::InvalidEnvironment)
                } else {
                    r == Ok::<Config, CliError>(c)
                },
            },
    {
        match found {
            None => Err(CliError::MissingConfig),
            Some(c) => {
                if c.environments.contains_key("default") {
                    Err(CliError::InvalidEnvironment)
                } else {
                    Ok(c)
                }
            },
        }
    }

    /// Whether it is time to check for a newer version: the last check lies more
    /// than a day before `now`.
    pub fn upgrade_check_time(&self, now: Timestamp) -> (due: bool)
        ensures
            due == (self.upgrade_check.instant() < now.instant() - DAY * 1_000_000_000),
    {
        let last: i128 = self.upgrade_check.secs as i128 * 1_000_000_000 + self.upgrade_check.nanos as i128;
        let cutoff: i128 = (now.secs as i128 - DAY as i128) * 1_000_000_000 + now.nanos as i128;
        last < cutoff
    }

    /// Notes that a check for a newer version was made at `now`.
    pub fn performed_upgrade(&mut self, now: Timestamp)
        ensures
            final(self).upgrade_check == now,
            final(self).artifactory == old(self).artifactory,
            final(self).cache == old(self).cache,
            final(self).environments == old(self).environments,
            final(self).mounts == old(self).mounts,
            final(self).interactive == old(self).interactive,
    {
        self.upgrade_check = now;
    }

    /// The container that the environment `env` stands for.
    pub fn get_container(&self, env: String) -> (r: Result<Container, CliError>)
        requires
            self.environments.wf(),
        ensures
            match r {
                Ok(c) => self.environments.map().contains_key(env@) && self.environments.map()[env@] == c,
                Err(e) => !self.environments.map().contains_key(env@) && e == CliError::MissingEnvironment(env),
            },
    {
        match self.environments.get(env.as_str()) {
            Some(container) => Ok(container.clone()),
            None => Err(CliError::MissingEnvironment(env)),
        }
    }
}

/// The names of the configured environments, in the order they are kept.
pub fn env_list(cfg: &Config) -> (names: Vec<String>)
    ensures
        names@.len() == cfg.environments.entries().len(),
        forall|i: int| 0 <= i < names@.len() ==> (#[trigger] names@[i])@ == cfg.environments.entries()[i].0,
{
    let mut names: Vec<String> = Vec::new();
    let mut i: usize = 0;
    while i < cfg.environments.len()
        invariant
            i <= cfg.environments.entries().len(),
            names@.len() == i,
            forall|j: int| 0 <= j < i ==> (#[trigger] names@[j])@ == cfg.environments.entries()[j].0,
        decreases cfg.environments.entries().len() - i,
    {
        names.push(cfg.environments.name_at(i).clone());
        i += 1;
    }
    names
}

/// Creates the configuration from `defaults`, with shells interactive or not as
/// asked.
pub fn configure(interactive: bool, defaults: ConfigDefaults, cache: String, now: Timestamp, present: &Vec<bool>) -> (c:
    Config)
    requires
        now.secs >= i64::MIN + 2 * DAY,
    ensures
        c.artifactory == defaults.artifactory,
        c.cache == cache,
        c.environments == defaults.environments,
        c.upgrade_check == (Timestamp { secs: (now.secs - 2 * DAY) as i64, nanos: now.nanos }),
        c.mounts@ == present_mounts(defaults.mounts@, present@, defaults.mounts@.len() as int),
        c.interactive == interactive,
{
    let mut cfg = Config::new(defaults, cache, now, present);
    cfg.interactive = interactive;
    cfg
}

} // verus!
