//! Routing log records to named sinks, each with its own filter.
//!
//! Levels are numbered as the `log` crate numbers them: for a record, Error 1, Warn 2,
//! Info 3, Debug 4, Trace 5; for a filter, Off 0 and then the same numbers. A sink's
//! configuration lets a record through when the sink is enabled, the record's level
//! number is below the filter's, and (for a sink that only takes local records) the
//! record comes from a module of this crate.
use vstd::prelude::*;
use vstd::string::StringSliceAdditionalSpecFns;
use crate::strings::{contains_bytes, has_infix};

verus! {

/// The highest filter number, that of `LevelFilter::Trace`.
pub const MAX_LEVEL_FILTER: usize = 5;

/// The name under which a sink is registered.
#[derive(PartialEq, Eq, Clone, Debug, Default, Hash, Ord, PartialOrd)]
pub struct SinkKey {
    pub name: String,
}

impl View for SinkKey {
    type V = Seq<char>;

    open spec fn view(&self) -> Seq<char> {
        self.name@
    }
}

impl SinkKey {
    /// The key named by a fixed string.
    pub fn fixed(name: &'static str) -> (r: Self)
        ensures
            r@ == name@,
    {
        SinkKey { name: name.to_owned() }
    }

    /// The key named by a string built at run time.
    pub fn dynamic(name: String) -> (r: Self)
        ensures
            r@ == name@,
    {
        SinkKey { name }
    }

    /// Whether two keys have the same name.
    pub fn same_as(&self, other: &SinkKey) -> (r: bool)
        ensures
            r == (self@ == other@),
    {
        self.name == other.name
    }
}

/// The UTF-8 bytes of this crate's name, `vlcsync`.
pub open spec fn crate_name_bytes() -> Seq<u8> {
    seq![118u8, 108u8, 99u8, 115u8, 121u8, 110u8, 99u8]
}

/// Whether `path` contains this crate's name.
pub fn mentions_crate(path: &str) -> (r: bool)
    ensures
        r == has_infix(path.spec_bytes(), crate_name_bytes()),
{
    let word: [u8; 7] = [118, 108, 99, 115, 121, 110, 99];
    assert(word@ =~= crate_name_bytes());
    contains_bytes(path.as_bytes(), &word)
}

/// The filter of one sink.
#[derive(Clone, Copy, Debug, Eq, PartialEq, Structural)]
pub struct LogSinkConfig {
    /// The filter's level number, or none when the sink is disabled.
    pub filter: Option<usize>,
    /// Only records from this crate's modules are taken.
    pub only_local: bool,
}

/// The configuration of a sink that was never configured: disabled, local records only.
pub open spec fn default_sink_config() -> LogSinkConfig {
    LogSinkConfig { filter: None, only_local: true }
}

/// A record of level `level` passes the filter: the sink is enabled and the level is
/// below the filter.
pub open spec fn level_matches(c: LogSinkConfig, level: usize) -> bool {
    match c.filter {
        Some(f) => level < f,
        None => false,
    }
}

/// A record of level `level` from the module `source_path` (if known) is logged.
pub open spec fn logs_record(c: LogSinkConfig, level: usize, source_path: Option<Seq<u8>>) -> bool {
    let from_crate = match source_path {
        Some(p) => has_infix(p, crate_name_bytes()),
        None => true,
    };
    level_matches(c, level) && (!c.only_local || from_crate)
}

impl LogSinkConfig {
    /// A disabled sink that takes local records only.
    pub fn new() -> (r: Self)
        ensures
            r == default_sink_config(),
    {
        Self::default()
    }

    pub fn is_enabled(&self) -> (r: bool)
        ensures
            r == self.filter is Some,
    {
        self.filter.is_some()
    }

    /// The same sink, taking every level its filter allows at most.
    pub fn enable_all(self) -> (r: Self)
        ensures
            r == (LogSinkConfig { filter: Some(MAX_LEVEL_FILTER), ..self }),
    {
        LogSinkConfig { filter: Some(MAX_LEVEL_FILTER), only_local: self.only_local }
    }

    pub fn disable(self) -> (r: Self)
        ensures
            r == (LogSinkConfig { filter: None, ..self }),
    {
        LogSinkConfig { filter: None, only_local: self.only_local }
    }

    /// The same sink with the filter numbered `filter`.
    pub fn with_filter(self, filter: usize) -> (r: Self)
        requires
            filter <= MAX_LEVEL_FILTER,
        ensures
            r == (LogSinkConfig { filter: Some(filter), ..self }),
    {
        LogSinkConfig { filter: Some(filter), only_local: self.only_local }
    }

    /// The same sink, taking records from other crates too when `nonlocal` holds.
    pub fn with_nonlocal(self, nonlocal: bool) -> (r: Self)
        ensures
            r == (LogSinkConfig { only_local: !nonlocal, ..self }),
    {
        LogSinkConfig { filter: self.filter, only_local: !nonlocal }
    }

    /// Whether a record of level `level` passes the filter.
    pub fn matches_level(&self, level: usize) -> (r: bool)
        ensures
            r == level_matches(*self, level),
    {
        if !self.is_enabled() {
            return false;
        }
        match self.filter {
            Some(filter) => level < filter,
            None => false,
        }
    }

    /// Whether a record of level `level` from the module `source_path` (if known) is
    /// logged.
    pub fn should_log(&self, level: usize, source_path: Option<&str>) -> (r: bool)
        ensures
            r == logs_record(
                *self,
                level,
                match source_path {
                    Some(p) => Some(p.spec_bytes()),
                    None => None,
                },
            ),
    {
        let matches_level = self.matches_level(level);
        let matches_source = match source_path {
            Some(path) => mentions_crate(path),
            None => true,
        };
        let log_all = !self.only_local;
        let source_flag = log_all || matches_source;
        matches_level && source_flag
    }
}

impl Default for LogSinkConfig {
    fn default() -> (r: Self)
        ensures
            r == default_sink_config(),
    {
        LogSinkConfig { filter: None, only_local: true }
    }
}

/// Something that log records can be written to, under a name.
pub trait LogSink {
    /// The name of the sink.
    spec fn sink_name(&self) -> Seq<char>;

    /// The sink's key: its name.
    fn key(&self) -> (r: SinkKey)
        ensures
            r@ == self.sink_name(),
    ;
}

/// The sink that writes to standard output.
pub struct StdoutLogSink {}

impl StdoutLogSink {
    pub fn new() -> (r: Self) {
        StdoutLogSink {  }
    }
}

impl LogSink for StdoutLogSink {
    open spec fn sink_name(&self) -> Seq<char> {
        "Stdout"@
    }

    fn key(&self) -> (r: SinkKey) {
        SinkKey::fixed("Stdout")
    }
}

/// The sink that writes to standard error.
pub struct StderrLogSink {}

impl StderrLogSink {
    pub fn new() -> (r: Self) {
        StderrLogSink {  }
    }
}

impl LogSink for StderrLogSink {
    open spec fn sink_name(&self) -> Seq<char> {
        "Stderr"@
    }

    fn key(&self) -> (r: SinkKey) {
        SinkKey::fixed("Stderr")
    }
}

/// The names of a list of entries.
pub open spec fn entry_keys<V>(entries: Seq<(SinkKey, V)>) -> Seq<Seq<char>> {
    entries.map_values(|e: (SinkKey, V)| e.0@)
}

/// The last index at which `key` occurs, or -1.
pub open spec fn key_index(keys: Seq<Seq<char>>, key: Seq<char>) -> int
    decreases keys.len(),
{
    if keys.len() == 0 {
        -1
    } else if keys.last() == key {
        keys.len() - 1
    } else {
        key_index(keys.drop_last(), key)
    }
}

/// The value registered last under `key`, if any.
pub open spec fn lookup<V>(entries: Seq<(SinkKey, V)>, key: Seq<char>) -> Option<V> {
    let i = key_index(entry_keys(entries), key);
    if i >= 0 {
        Some(entries[i].1)
    } else {
        None
    }
}

/// The configuration that applies to the sink named `key`.
pub open spec fn config_for(configs: Seq<(SinkKey, LogSinkConfig)>, key: Seq<char>) -> LogSinkConfig {
    match lookup(configs, key) {
        Some(c) => c,
        None => default_sink_config(),
    }
}

/// The indices below `n` of the sinks that a record of level `level` goes to.
pub open spec fn log_targets<S>(
    sinks: Seq<(SinkKey, S)>,
    configs: Seq<(SinkKey, LogSinkConfig)>,
    level: usize,
    source_path: Option<Seq<u8>>,
    n: nat,
) -> Seq<usize>
    decreases n,
{
    if n == 0 {
        Seq::empty()
    } else {
        let rest = log_targets(sinks, configs, level, source_path, (n - 1) as nat);
        if logs_record(config_for(configs, sinks[n - 1].0@), level, source_path) {
            rest.push((n - 1) as usize)
        } else {
            rest
        }
    }
}

proof fn lemma_key_index_range(keys: Seq<Seq<char>>, key: Seq<char>)
    ensures
        -1 <= key_index(keys, key) < keys.len(),
        key_index(keys, key) >= 0 ==> keys[key_index(keys, key)] == key,
    decreases keys.len(),
{
    if keys.len() > 0 {
        lemma_key_index_range(keys.drop_last(), key);
    }
}

/// Pushing an entry under a new name leaves the other names where they were.
proof fn lemma_key_index_push(keys: Seq<Seq<char>>, k: Seq<char>, key: Seq<char>)
    ensures
        key_index(keys.push(k), key) == if k == key {
            keys.len() as int
        } else {
            key_index(keys, key)
        },
{
    assert(keys.push(k).drop_last() =~= keys);
}

/// The last index at which `key` occurs among the first `i` names is where it was
/// looked for from the end.
proof fn lemma_key_index_prefix(keys: Seq<Seq<char>>, key: Seq<char>, i: int)
    requires
        0 <= i < keys.len(),
        key_index(keys, key) == key_index(keys.take(i + 1), key),
        keys[i] != key,
    ensures
        key_index(keys, key) == key_index(keys.take(i), key),
{
    assert(keys.take(i + 1).drop_last() =~= keys.take(i));
}

/// `after` is `before` with `value` registered under `key`: that name now gives
/// `value`, every other name what it gave before.
pub open spec fn added_under<V>(before: Seq<(SinkKey, V)>, after: Seq<(SinkKey, V)>, key: Seq<char>, value: V) -> bool {
    forall|k: Seq<char>| #[trigger] lookup(after, k) == if k == key {
        Some(value)
    } else {
        lookup(before, k)
    }
}

/// The registry of sinks and their configurations.
pub struct LogSinkWrapper<S> {
    configs: Vec<(SinkKey, LogSinkConfig)>,
    sinks: Vec<(SinkKey, S)>,
}

/// Finds the last entry named `key`.
fn find_key<V>(entries: &Vec<(SinkKey, V)>, key: &SinkKey) -> (r: Option<usize>)
    ensures
        match r {
            Some(i) => i == key_index(entry_keys(entries@), key@),
            None => key_index(entry_keys(entries@), key@) == -1,
        },
{
    let ghost keys = entry_keys(entries@);
    let mut i: usize = entries.len();
    assert(keys.take(i as int) =~= keys);
    while i > 0
        invariant
            i <= entries@.len(),
            keys == entry_keys(entries@),
            key_index(keys, key@) == key_index(keys.take(i as int), key@),
        decreases i,
    {
        if entries[i - 1].0.same_as(key) {
            assert(keys.take(i as int).last() == key@);
            return Some(i - 1);
        }
        proof {
            lemma_key_index_prefix(keys, key@, i - 1);
        }
        i = i - 1;
    }
    None
}

/// Registers `value` under `key`, replacing what was registered last under it.
fn put_entry<V>(entries: &mut Vec<(SinkKey, V)>, key: SinkKey, value: V)
    ensures
        added_under(old(entries)@, final(entries)@, key@, value),
{
    let ghost old_keys = entry_keys(entries@);
    match find_key(entries, &key) {
        Some(i) => {
            proof {
                lemma_key_index_range(old_keys, key@);
            }
            entries.set(i, (key, value));
            assert(entry_keys(entries@) =~= old_keys);
            assert forall|k: Seq<char>| #[trigger] lookup(entries@, k) == if k == key@ {
                Some(value)
            } else {
                lookup(old(entries)@, k)
            } by {
                lemma_key_index_range(old_keys, k);
            }
        },
        None => {
            entries.push((key, value));
            assert(entry_keys(entries@) =~= old_keys.push(key@));
            assert forall|k: Seq<char>| #[trigger] lookup(entries@, k) == if k == key@ {
                Some(value)
            } else {
                lookup(old(entries)@, k)
            } by {
                lemma_key_index_push(old_keys, key@, k);
                lemma_key_index_range(old_keys, k);
            }
        },
    }
}

impl<S> LogSinkWrapper<S> {
    /// The configurations, in the order the sinks were first registered.
    pub closed spec fn configs(&self) -> Seq<(SinkKey, LogSinkConfig)> {
        self.configs@
    }

    /// The sinks, in the order they were first registered.
    pub closed spec fn sinks(&self) -> Seq<(SinkKey, S)> {
        self.sinks@
    }

    /// No sinks.
    pub fn new() -> (r: Self)
        ensures
            r.configs() == Seq::<(SinkKey, LogSinkConfig)>::empty(),
            r.sinks() == Seq::<(SinkKey, S)>::empty(),
    {
        LogSinkWrapper { configs: Vec::new(), sinks: Vec::new() }
    }

    /// Registers `sink` under `key` with the configuration `conf`, replacing any sink
    /// and configuration registered under that name.
    pub fn add_keyed(&mut self, key: SinkKey, sink: S, conf: LogSinkConfig)
        ensures
            added_under(old(self).configs(), final(self).configs(), key@, conf),
            added_under(old(self).sinks(), final(self).sinks(), key@, sink),
    {
        let name = SinkKey { name: key.name.clone() };
        put_entry(&mut self.configs, name, conf);
        put_entry(&mut self.sinks, key, sink);
    }

    /// Registers `logger` under its own key with the configuration `conf`.
    pub fn add_logger(&mut self, logger: S, conf: LogSinkConfig)
        where
            S: LogSink,
        ensures
            added_under(old(self).configs(), final(self).configs(), logger.sink_name(), conf),
            added_under(old(self).sinks(), final(self).sinks(), logger.sink_name(), logger),
    {
        let key = logger.key();
        self.add_keyed(key, logger, conf);
    }

    /// The configuration that applies to the sink named `key`: the one registered, or
    /// the default.
    pub fn current_config_for(&self, key: &SinkKey) -> (r: LogSinkConfig)
        ensures
            r == config_for(self.configs(), key@),
    {
        match find_key(&self.configs, key) {
            Some(i) => {
                proof {
                    lemma_key_index_range(entry_keys(self.configs@), key@);
                }
                self.configs[i].1
            },
            None => LogSinkConfig::default(),
        }
    }

    /// Replaces the configuration registered under `key` and returns the one it
    /// replaced; where none is registered, changes nothing and hands `new_conf` back.
    pub fn update_config_for(&mut self, key: &SinkKey, new_conf: LogSinkConfig) -> (r: Result<LogSinkConfig, LogSinkConfig>)
        ensures
            match lookup(old(self).configs(), key@) {
                Some(c) => {
                    &&& r == Ok::<LogSinkConfig, LogSinkConfig>(c)
                    &&& added_under(old(self).configs(), final(self).configs(), key@, new_conf)
                },
                None => {
                    &&& r == Err::<LogSinkConfig, LogSinkConfig>(new_conf)
                    &&& final(self).configs() == old(self).configs()
                },
            },
            final(self).sinks() == old(self).sinks(),
    {
        match find_key(&self.configs, key) {
            Some(i) => {
                let ghost old_keys = entry_keys(self.configs@);
                proof {
                    lemma_key_index_range(old_keys, key@);
                }
                let previous = self.configs[i].1;
                let name = SinkKey { name: self.configs[i].0.name.clone() };
                self.configs.set(i, (name, new_conf));
                assert(entry_keys(self.configs@) =~= old_keys);
                assert forall|k: Seq<char>| #[trigger] lookup(self.configs@, k) == if k == key@ {
                    Some(new_conf)
                } else {
                    lookup(old(self).configs@, k)
                } by {
                    lemma_key_index_range(old_keys, k);
                }
                Ok(previous)
            },
            None => Err(new_conf),
        }
    }

    /// Whether some sink would take a record of level `level`.
    pub fn enabled(&self, level: usize) -> (r: bool)
        ensures
            r == exists|i: int| 0 <= i < self.configs().len() && level_matches(#[trigger] self.configs()[i].1, level),
    {
        let mut i: usize = 0;
        while i < self.configs.len()
            invariant
                i <= self.configs@.len(),
                forall|j: int| 0 <= j < i ==> !level_matches(#[trigger] self.configs@[j].1, level),
            decreases self.configs@.len() - i,
        {
            if self.configs[i].1.matches_level(level) {
                assert(level_matches(self.configs()[i as int].1, level));
                return true;
            }
            i = i + 1;
        }
        false
    }

    /// The number of registered sinks.
    pub fn sink_count(&self) -> (r: usize)
        ensures
            r == self.sinks().len(),
    {
        self.sinks.len()
    }

    /// The sink registered at position `i`.
    pub fn sink_at(&self, i: usize) -> (r: &S)
        requires
            i < self.sinks().len(),
        ensures
            *r == self.sinks()[i as int].1,
    {
        &self.sinks[i].1
    }

    /// The name of the sink registered at position `i`.
    pub fn sink_key_at(&self, i: usize) -> (r: &SinkKey)
        requires
            i < self.sinks().len(),
        ensures
            *r == self.sinks()[i as int].0,
    {
        &self.sinks[i].0
    }

    /// The positions of the sinks that take a record of level `level` from the module
    /// `source_path` (if known), in registration order.
    pub fn log_targets(&self, level: usize, source_path: Option<&str>) -> (r: Vec<usize>)
        ensures
            r@ == log_targets(
                self.sinks(),
                self.configs(),
                level,
                match source_path {
                    Some(p) => Some(p.spec_bytes()),
                    None => None,
                },
                self.sinks().len(),
            ),
    {
        let ghost path = match source_path {
            Some(p) => Some(p.spec_bytes()),
            None => None,
        };
        let mut out: Vec<usize> = Vec::new();
        let mut i: usize = 0;
        while i < self.sinks.len()
            invariant
                i <= self.sinks@.len(),
                path == match source_path {
                    Some(p) => Some(p.spec_bytes()),
                    None => None::<Seq<u8>>,
                },
                out@ == log_targets(self.sinks@, self.configs@, level, path, i as nat),
            decreases self.sinks@.len() - i,
        {
            let conf = self.current_config_for(&self.sinks[i].0);
            if conf.should_log(level, source_path) {
                out.push(i);
            }
            i = i + 1;
        }
        out
    }
}

/// A record goes to a sink only if that sink's configuration lets it through.
pub proof fn lemma_targets_pass_filter<S>(
    sinks: Seq<(SinkKey, S)>,
    configs: Seq<(SinkKey, LogSinkConfig)>,
    level: usize,
    source_path: Option<Seq<u8>>,
    n: nat,
    j: int,
)
    requires
        n <= sinks.len() <= usize::MAX,
        0 <= j < log_targets(sinks, configs, level, source_path, n).len(),
    ensures
        ({
            let t = log_targets(sinks, configs, level, source_path, n)[j];
            &&& t < n
            &&& logs_record(config_for(configs, sinks[t as int].0@), level, source_path)
        }),
    decreases n,
{
    let rest = log_targets(sinks, configs, level, source_path, (n - 1) as nat);
    if j < rest.len() {
        lemma_targets_pass_filter(sinks, configs, level, source_path, (n - 1) as nat, j);
    }
}

/// A sink that was never configured takes nothing.
pub proof fn lemma_unconfigured_sink_silent(level: usize, source_path: Option<Seq<u8>>)
    ensures
        !logs_record(default_sink_config(), level, source_path),
{
}

} // verus!
