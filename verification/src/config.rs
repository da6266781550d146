//! The configuration of the relay and the check that it is consistent.

use crate::table::NameTable;
use vstd::prelude::*;
use vstd::string::StringExecFns;

verus! {

/// A processing stage that can be put before the backends.
#[derive(Debug, Clone)]
pub enum Processor {
    Sampler {
        counter_cardinality: Option<u32>,
        sampling_threshold: Option<u32>,
        sampling_window: Option<u32>,
        gauge_cardinality: Option<u32>,
        gauge_sampling_threshold: Option<u32>,
        gauge_sampling_window: Option<u32>,
        timer_cardinality: Option<u32>,
        timer_sampling_threshold: Option<u32>,
        timer_sampling_window: Option<u32>,
        reservoir_size: Option<u32>,
    },
}

/// The configured processors, by name.
#[derive(Debug, Clone)]
pub struct Processors {
    pub processors: NameTable<Processor>,
}

/// One backend: where its lines go and how they are filtered and renamed.
#[derive(Debug)]
pub struct StatsdDuplicateTo {
    pub shard_map: Vec<String>,
    pub shard_map_source: Option<String>,
    pub suffix: Option<String>,
    pub prefix: Option<String>,
    pub input_blocklist: Option<String>,
    pub input_filter: Option<String>,
}

/// The ingest side and its backends.
#[derive(Debug, Clone)]
pub struct StatsdConfig {
    pub bind: String,
    pub point_tag_regex: Option<String>,
    pub validate: Option<bool>,
    pub tcp_cork: Option<bool>,
    pub backends: NameTable<StatsdDuplicateTo>,
}

/// A rewrite applied to a discovered list of hosts.
#[derive(Debug, Clone)]
pub enum DiscoveryTransform {
    Format { pattern: String },
    Repeat { count: u32 },
}

/// A list of hosts kept in an object store.
#[derive(Debug, Clone)]
pub struct S3DiscoverySource {
    pub bucket: String,
    pub key: String,
    pub interval: u32,
    pub format: Option<String>,
    pub transforms: Option<Vec<DiscoveryTransform>>,
}

/// A list of hosts kept in a local file.
#[derive(Debug, Clone)]
pub struct PathDiscoverySource {
    pub path: String,
    pub interval: u32,
    pub transforms: Option<Vec<DiscoveryTransform>>,
}

/// Where a list of hosts is polled from.
#[derive(Debug, Clone)]
pub enum DiscoverySource {
    StaticFile(PathDiscoverySource),
    S3(S3DiscoverySource),
}

impl DiscoverySource {
    /// The seconds between two polls of the source.
    pub fn interval(&self) -> (r: u32)
        ensures
            r == match *self {
                DiscoverySource::StaticFile(source) => source.interval,
                DiscoverySource::S3(source) => source.interval,
            },
    {
        match self {
            DiscoverySource::StaticFile(source) => source.interval,
            DiscoverySource::S3(source) => source.interval,
        }
    }

    /// The transforms that the source applies to what it fetched.
    pub open spec fn configured_transforms(&self) -> Seq<DiscoveryTransform> {
        let configured = match *self {
            DiscoverySource::StaticFile(source) => source.transforms,
            DiscoverySource::S3(source) => source.transforms,
        };
        match configured {
            Some(transforms) => transforms@,
            None => Seq::empty(),
        }
    }

    /// The transforms that the source applies to what it fetched, where any
    /// are configured.
    pub fn transforms(&self) -> (r: Option<&Vec<DiscoveryTransform>>)
        ensures
            match r {
                Some(transforms) => transforms@ == self.configured_transforms(),
                None => self.configured_transforms() == Seq::<DiscoveryTransform>::empty(),
            },
    {
        let configured = match self {
            DiscoverySource::StaticFile(source) => &source.transforms,
            DiscoverySource::S3(source) => &source.transforms,
        };
        match configured {
            Some(transforms) => Some(transforms),
            None => None,
        }
    }
}

/// The discovery sources, by name.
#[derive(Debug, Clone)]
pub struct Discovery {
    pub sources: NameTable<DiscoverySource>,
}

impl Default for Discovery {
    fn default() -> (r: Self)
        ensures
            r.sources.names() == Seq::<Seq<char>>::empty(),
    {
        Discovery { sources: NameTable::new() }
    }
}

/// The administrative HTTP endpoint.
#[derive(Debug, Clone)]
pub struct AdminConfig {
    pub port: u16,
}

/// The whole configuration.
#[derive(Debug, Clone)]
pub struct Config {
    pub statsd: StatsdConfig,
    pub discovery: Option<Discovery>,
    pub processor: Option<Processors>,
    pub admin: Option<AdminConfig>,
}

/// Why a configuration is refused.
#[derive(Debug)]
pub enum Error {
    UnknownDiscoverySource(String),
}

impl Error {
    /// The error in words.
    pub fn message(&self) -> (r: String)
        ensures
            match self {
                Error::UnknownDiscoverySource(source) => r@
                    == "could not locate discovery source "@ + source@,
            },
    {
        match self {
            Error::UnknownDiscoverySource(source) => {
                let mut text = String::from_str("could not locate discovery source ");
                text.append(source.as_str());
                text
            },
        }
    }
}

impl Clone for StatsdDuplicateTo {
    /// A copy that agrees with `self` in every field.
    fn clone(&self) -> (r: Self)
        ensures
            r.shard_map@ == self.shard_map@,
            r.shard_map_source == self.shard_map_source,
            r.suffix == self.suffix,
            r.prefix == self.prefix,
            r.input_blocklist == self.input_blocklist,
            r.input_filter == self.input_filter,
    {
        StatsdDuplicateTo {
            shard_map: clone_strings(&self.shard_map),
            shard_map_source: clone_optional(&self.shard_map_source),
            suffix: clone_optional(&self.suffix),
            prefix: clone_optional(&self.prefix),
            input_blocklist: clone_optional(&self.input_blocklist),
            input_filter: clone_optional(&self.input_filter),
        }
    }
}

/// A copy of an optional string.
pub fn clone_optional(text: &Option<String>) -> (r: Option<String>)
    ensures
        r == *text,
{
    match text {
        Some(s) => Some(s.clone()),
        None => None,
    }
}

/// A copy of a list of strings.
pub fn clone_strings(list: &Vec<String>) -> (r: Vec<String>)
    ensures
        r@ == list@,
{
    let mut r: Vec<String> = Vec::new();
    let mut i: usize = 0;
    while i < list.len()
        invariant
            0 <= i <= list@.len(),
            r@ == list@.take(i as int),
        decreases list@.len() - i,
    {
        r.push(list[i].clone());
        assert(r@ =~= list@.take(i + 1));
        i += 1;
    }
    assert(list@.take(list@.len() as int) =~= list@);
    r
}

/// The names of the discovery sources that a configuration declares.
pub open spec fn declared_sources(config: &Config) -> Seq<Seq<char>> {
    match config.discovery {
        Some(discovery) => discovery.sources.names(),
        None => Seq::empty(),
    }
}

/// Whether a backend names no source, or one that the configuration declares.
pub open spec fn source_declared(config: &Config, backend: StatsdDuplicateTo) -> bool {
    match backend.shard_map_source {
        Some(source) => declared_sources(config).contains(source@),
        None => true,
    }
}

/// Whether every backend's source is declared.
pub open spec fn consistent(config: &Config) -> bool {
    forall|i: int|
        0 <= i < config.statsd.backends.values().len() ==> source_declared(
            config,
            #[trigger] config.statsd.backends.values()[i],
        )
}

/// Checks that every backend that takes its shard map from discovery names
/// a declared source. The error names the source of the first backend, in
/// table order, that does not.
pub fn check_config(config: &Config) -> (r: Result<(), Error>)
    ensures
        r is Ok <==> consistent(config),
        r matches Err(Error::UnknownDiscoverySource(missing)) ==> exists|i: int|
            {
                &&& 0 <= i < config.statsd.backends.values().len()
                &&& #[trigger] config.statsd.backends.values()[i].shard_map_source matches Some(
                    source,
                ) && source@ == missing@
                &&& !declared_sources(config).contains(missing@)
                &&& forall|j: int|
                    0 <= j < i ==> source_declared(
                        config,
                        #[trigger] config.statsd.backends.values()[j],
                    )
            },
{
    let backends = &config.statsd.backends;
    let n = backends.len();
    let mut i: usize = 0;
    while i < n
        invariant
            0 <= i <= n,
            n == backends.values().len(),
            backends == &config.statsd.backends,
            forall|j: int|
                0 <= j < i ==> source_declared(config, #[trigger] backends.values()[j]),
        decreases n - i,
    {
        let backend = backends.value_at(i);
        if let Some(source) = &backend.shard_map_source {
            let known = match &config.discovery {
                Some(discovery) => discovery.sources.position(source).is_some(),
                None => false,
            };
            if !known {
                assert(!source_declared(config, backends.values()[i as int]));
                return Err(Error::UnknownDiscoverySource(source.clone()));
            }
        }
        i += 1;
    }
    Ok(())
}

} // verus!
