use vlcsync::logging::{
    mentions_crate, LogSink, LogSinkConfig, LogSinkWrapper, SinkKey, StderrLogSink, StdoutLogSink,
    MAX_LEVEL_FILTER,
};

const ERROR: usize = 1;
const WARN: usize = 2;
const INFO: usize = 3;
const TRACE: usize = 5;

#[test]
fn config_levels() {
    let c = LogSinkConfig::new();
    assert!(!c.is_enabled());
    assert!(!c.matches_level(ERROR));
    let all = c.enable_all();
    assert!(all.is_enabled());
    assert_eq!(all.filter, Some(MAX_LEVEL_FILTER));
    // The filter lets through levels strictly below it.
    assert!(all.matches_level(ERROR));
    assert!(all.matches_level(4));
    assert!(!all.matches_level(TRACE));
    let warn = c.with_filter(WARN);
    assert!(warn.matches_level(ERROR));
    assert!(!warn.matches_level(WARN));
    assert!(!warn.disable().is_enabled());
}

#[test]
fn config_sources() {
    let local = LogSinkConfig::new().enable_all();
    assert!(local.only_local);
    assert!(local.should_log(INFO, Some("vlcsync::network")));
    assert!(!local.should_log(INFO, Some("hyper::client")));
    assert!(local.should_log(INFO, None));
    assert!(!local.should_log(TRACE, Some("vlcsync")));
    let everything = local.with_nonlocal(true);
    assert!(everything.should_log(INFO, Some("hyper::client")));
    assert!(mentions_crate("app::vlcsync"));
    assert!(!mentions_crate("vlcsyn"));
    assert!(!mentions_crate(""));
}

#[test]
fn sink_keys() {
    assert_eq!(StdoutLogSink::new().key(), SinkKey::fixed("Stdout"));
    assert_eq!(StderrLogSink::new().key(), SinkKey::dynamic("Stderr".to_string()));
}

#[test]
fn registry() {
    let mut w: LogSinkWrapper<StdoutLogSink> = LogSinkWrapper::new();
    let key = SinkKey::fixed("Stdout");
    assert!(!w.current_config_for(&key).is_enabled());
    assert!(w.update_config_for(&key, LogSinkConfig::new().enable_all()).is_err());
    w.add_logger(StdoutLogSink::new(), LogSinkConfig::new().with_filter(WARN));
    assert_eq!(w.sink_count(), 1);
    assert!(w.enabled(ERROR));
    assert!(!w.enabled(WARN));
    let previous = w.update_config_for(&key, LogSinkConfig::new().enable_all()).unwrap();
    assert_eq!(previous, LogSinkConfig::new().with_filter(WARN));
    assert_eq!(w.current_config_for(&key), LogSinkConfig::new().enable_all());
    assert_eq!(w.log_targets(INFO, Some("vlcsync::state")), vec![0]);
    assert_eq!(w.log_targets(INFO, Some("tokio")), Vec::<usize>::new());
    assert_eq!(w.sink_key_at(0), &key);
    // Registering again under the same name replaces the entry.
    w.add_logger(StdoutLogSink::new(), LogSinkConfig::new());
    assert_eq!(w.sink_count(), 1);
    assert!(w.log_targets(ERROR, None).is_empty());
}
