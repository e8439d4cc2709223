use log4rs::append::Append;
use log4rs::config::{validate, Appender, Config, Logger, Root};
use log4rs::error::{AppendError, ConfigError};
use log4rs::level::LevelFilter;
use log4rs::record::Record;

struct Silent;

impl Append for Silent {
    fn append(&self, _record: &Record) -> Result<(), AppendError> {
        Ok(())
    }
}

fn appender(name: &str) -> Appender {
    Appender::builder().build(name.to_string(), Box::new(Silent))
}

fn logger(name: &str, appenders: &[&str]) -> Logger {
    let mut builder = Logger::builder();
    for a in appenders {
        builder = builder.appender(a.to_string());
    }
    builder.build(name.to_string(), LevelFilter::Info)
}

fn root(appenders: &[&str]) -> Root {
    let mut builder = Root::builder();
    for a in appenders {
        builder = builder.appender(a.to_string());
    }
    builder.build(LevelFilter::Warn)
}

#[test]
fn a_consistent_configuration_is_accepted() {
    let config = Config::builder()
        .appender(appender("one"))
        .appender(appender("two"))
        .logger(logger("a", &["one"]))
        .logger(logger("a.b", &["two", "one"]))
        .build(root(&["two"]))
        .unwrap();
    assert_eq!(config.appender_names(), &vec!["one".to_string(), "two".to_string()]);
    assert_eq!(config.loggers().len(), 2);
    assert_eq!(config.loggers()[1].name(), "a.b");
    assert_eq!(config.loggers()[1].level(), LevelFilter::Info);
    assert!(config.loggers()[1].additive());
    assert_eq!(config.loggers()[1].appenders(), &vec!["two".to_string(), "one".to_string()]);
    assert_eq!(config.root().level(), LevelFilter::Warn);
    assert_eq!(config.root().appenders(), &vec!["two".to_string()]);
    assert!(config.appender(1).is_some());
    assert!(config.appender(2).is_none());
}

#[test]
fn the_empty_configuration_is_accepted() {
    let config = Config::builder().build(root(&[])).unwrap();
    assert!(config.appender_names().is_empty());
    assert!(config.loggers().is_empty());
}

#[test]
fn two_appenders_of_one_name_are_refused() {
    let refused = Config::builder()
        .appender(appender("one"))
        .appender(appender("two"))
        .appender(appender("one"))
        .appender(appender("two"))
        .build(root(&[]));
    match refused {
        Err(ConfigError::DuplicateSinkName(name)) => assert_eq!(name, "one"),
        _ => panic!("expected a duplicate appender"),
    }
}

#[test]
fn two_loggers_of_one_name_are_refused() {
    let refused = Config::builder()
        .appender(appender("one"))
        .logger(logger("a", &["one"]))
        .logger(logger("b", &[]))
        .logger(logger("a", &[]))
        .build(root(&[]));
    match refused {
        Err(ConfigError::DuplicateLoggerName(name)) => assert_eq!(name, "a"),
        _ => panic!("expected a duplicate logger"),
    }
}

#[test]
fn a_logger_with_the_name_of_the_root_is_refused() {
    let refused = Config::builder().logger(logger("", &[])).build(root(&[]));
    match refused {
        Err(ConfigError::DuplicateLoggerName(name)) => assert_eq!(name, ""),
        _ => panic!("expected a duplicate logger"),
    }
}

#[test]
fn a_reference_to_a_missing_appender_is_refused() {
    let by_logger = Config::builder()
        .appender(appender("one"))
        .logger(logger("a", &["one"]))
        .logger(logger("b", &["one", "nine", "ten"]))
        .build(root(&["one"]));
    match by_logger {
        Err(ConfigError::UnknownSinkReference(name)) => assert_eq!(name, "nine"),
        _ => panic!("expected an unknown reference"),
    }
    let by_root = Config::builder()
        .appender(appender("one"))
        .logger(logger("a", &["nine"]))
        .build(root(&["one", "eleven"]));
    match by_root {
        Err(ConfigError::UnknownSinkReference(name)) => assert_eq!(name, "eleven"),
        _ => panic!("expected an unknown reference"),
    }
}

#[test]
fn appender_names_are_checked_before_logger_names_and_references() {
    let refused = Config::builder()
        .appender(appender("one"))
        .appender(appender("one"))
        .logger(logger("a", &["nine"]))
        .logger(logger("a", &[]))
        .build(root(&["nine"]));
    assert!(matches!(refused, Err(ConfigError::DuplicateSinkName(_))));
    let refused = Config::builder()
        .appender(appender("one"))
        .logger(logger("a", &["nine"]))
        .logger(logger("a", &[]))
        .build(root(&["nine"]));
    assert!(matches!(refused, Err(ConfigError::DuplicateLoggerName(_))));
}

#[test]
fn an_appender_is_attached_to_a_logger_once() {
    let built = logger("a", &["one", "two", "one", "three", "two"]);
    assert_eq!(
        built.appenders(),
        &vec!["one".to_string(), "two".to_string(), "three".to_string()]
    );
    let top = root(&["x", "x"]);
    assert_eq!(top.appenders(), &vec!["x".to_string()]);
}

#[test]
fn a_logger_is_additive_unless_told_otherwise() {
    assert!(Logger::builder().build("a".to_string(), LevelFilter::Off).additive());
    assert!(!Logger::builder().additive(false).build("a".to_string(), LevelFilter::Off).additive());
    assert!(Logger::builder().additive(false).additive(true).build("a".to_string(), LevelFilter::Off).additive());
}

#[test]
fn names_can_be_checked_without_appenders() {
    let names = vec!["one".to_string(), "two".to_string()];
    assert!(validate(&names, &root(&["two"]), &vec![logger("a", &["one"])]).is_ok());
    let refused = validate(&names, &root(&["three"]), &vec![]);
    assert!(matches!(refused, Err(ConfigError::UnknownSinkReference(n)) if n == "three"));
    let twice = vec!["one".to_string(), "one".to_string()];
    let refused = validate(&twice, &root(&[]), &vec![]);
    assert!(matches!(refused, Err(ConfigError::DuplicateSinkName(n)) if n == "one"));
}

#[test]
fn an_appender_keeps_its_name() {
    let a = appender("plain");
    assert_eq!(a.name(), "plain");
    assert!(a.appender().append(&Record::new(log4rs::level::Level::Info, "t", "m")).is_ok());
    assert!(a.appender().post_rotate().is_ok());
}

#[test]
fn an_error_tells_what_it_is_about() {
    assert_eq!(ConfigError::UnknownKind("k".to_string()).message(), "k");
    assert_eq!(ConfigError::MalformedConfig("m".to_string()).message(), "m");
    assert_eq!(ConfigError::ComponentConstructionFailed("c".to_string()).message(), "c");
    assert_eq!(ConfigError::DuplicateSinkName("s".to_string()).message(), "s");
    assert_eq!(ConfigError::DuplicateLoggerName("l".to_string()).message(), "l");
    assert_eq!(ConfigError::UnknownSinkReference("r".to_string()).message(), "r");
}
