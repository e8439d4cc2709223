use std::sync::atomic::{AtomicUsize, Ordering};
use std::sync::Arc;

use log4rs::append::Append;
use log4rs::config::{Logger, Root};
use log4rs::encode::Encode;
use log4rs::error::{AppendError, ConfigError, EncodeError};
use log4rs::file::{build_config, Deserialize, Deserializers, RawAppender, RawConfig, Registry};
use log4rs::level::{Level, LevelFilter};
use log4rs::record::Record;
use serde_value::Value;

/// An appender that answers with the mark it was made with.
struct Marked(String);

impl Append for Marked {
    fn append(&self, _record: &Record) -> Result<(), AppendError> {
        Err(AppendError::IoError(self.0.clone()))
    }
}

/// Makes `Marked` appenders from strings and counts how often it is asked.
struct Marker {
    prefix: &'static str,
    calls: Arc<AtomicUsize>,
}

impl Deserialize<dyn Append> for Marker {
    fn deserialize(&self, config: Value) -> Result<Box<dyn Append>, ConfigError> {
        self.calls.fetch_add(1, Ordering::SeqCst);
        match config {
            Value::String(s) if s == "fail" => {
                Err(ConfigError::ComponentConstructionFailed("cannot".to_string()))
            }
            Value::String(s) => Ok(Box::new(Marked(format!("{}{}", self.prefix, s)))),
            _ => Err(ConfigError::MalformedConfig("expected a string".to_string())),
        }
    }
}

struct Upper;

impl Encode for Upper {
    fn encode(&self, out: &mut Vec<u8>, record: &Record) -> Result<(), EncodeError> {
        out.extend(record.message().to_uppercase().bytes());
        Ok(())
    }

    fn describe(&self) -> String {
        "Upper".to_string()
    }
}

struct UpperMaker;

impl Deserialize<dyn Encode> for UpperMaker {
    fn deserialize(&self, _config: Value) -> Result<Box<dyn Encode>, ConfigError> {
        Ok(Box::new(Upper))
    }
}

fn marker(prefix: &'static str, calls: &Arc<AtomicUsize>) -> Box<dyn Deserialize<dyn Append>> {
    Box::new(Marker { prefix, calls: calls.clone() })
}

fn mark_of(appender: &Box<dyn Append>) -> String {
    match appender.append(&Record::new(Level::Info, "t", "m")) {
        Err(AppendError::IoError(mark)) => mark,
        _ => panic!("not a marked appender"),
    }
}

fn raw(name: &str, kind: &str, config: &str) -> RawAppender {
    RawAppender { name: name.to_string(), kind: kind.to_string(), config: Value::String(config.to_string()) }
}

fn root(appenders: &[&str]) -> Root {
    let mut builder = Root::builder();
    for a in appenders {
        builder = builder.appender(a.to_string());
    }
    builder.build(LevelFilter::Info)
}

#[test]
fn a_kind_that_is_not_registered_is_unknown_and_nothing_is_built() {
    let calls = Arc::new(AtomicUsize::new(0));
    let mut registry: Registry<Box<dyn Deserialize<dyn Append>>> = Registry::new();
    registry.register("file", marker("f:", &calls));
    let refused = registry.build("nonexistent_kind", Value::String("anything".to_string()));
    match refused {
        Err(ConfigError::UnknownKind(kind)) => assert_eq!(kind, "nonexistent_kind"),
        _ => panic!("expected an unknown kind"),
    }
    assert_eq!(calls.load(Ordering::SeqCst), 0);
    let empty: Registry<Box<dyn Deserialize<dyn Append>>> = Registry::new();
    assert!(matches!(empty.build("file", Value::Unit), Err(ConfigError::UnknownKind(k)) if k == "file"));
}

#[test]
fn a_registered_kind_is_built_by_its_constructor() {
    let calls = Arc::new(AtomicUsize::new(0));
    let mut registry: Registry<Box<dyn Deserialize<dyn Append>>> = Registry::new();
    registry.register("file", marker("f:", &calls));
    registry.register("console", marker("c:", &calls));
    assert!(registry.is_registered("file"));
    assert!(registry.is_registered("console"));
    assert!(!registry.is_registered("File"));
    assert!(registry.get("console").is_some());
    assert!(registry.get("socket").is_none());
    let built = registry.build("file", Value::String("x".to_string())).ok().unwrap();
    assert_eq!(mark_of(&built), "f:x");
    let built = registry.build("console", Value::String("y".to_string())).ok().unwrap();
    assert_eq!(mark_of(&built), "c:y");
    assert_eq!(calls.load(Ordering::SeqCst), 2);
}

#[test]
fn the_constructor_decides_between_malformed_and_failed() {
    let calls = Arc::new(AtomicUsize::new(0));
    let mut registry: Registry<Box<dyn Deserialize<dyn Append>>> = Registry::new();
    registry.register("file", marker("f:", &calls));
    assert!(matches!(registry.build("file", Value::U8(3)), Err(ConfigError::MalformedConfig(_))));
    assert!(matches!(
        registry.build("file", Value::String("fail".to_string())),
        Err(ConfigError::ComponentConstructionFailed(_))
    ));
}

#[test]
fn the_last_registration_of_a_kind_wins() {
    let calls = Arc::new(AtomicUsize::new(0));
    let mut registry: Registry<Box<dyn Deserialize<dyn Append>>> = Registry::new();
    registry.register("file", marker("first:", &calls));
    registry.register("other", marker("other:", &calls));
    registry.register("file", marker("second:", &calls));
    let built = registry.build("file", Value::String("x".to_string())).ok().unwrap();
    assert_eq!(mark_of(&built), "second:x");
    let built = registry.build("other", Value::String("x".to_string())).ok().unwrap();
    assert_eq!(mark_of(&built), "other:x");
}

#[test]
fn a_registry_holds_anything() {
    let mut registry: Registry<u32> = Registry::new();
    assert_eq!(registry.get("a"), None);
    registry.register("a", 1);
    registry.register("b", 2);
    registry.register("a", 3);
    assert_eq!(registry.get("a"), Some(&3));
    assert_eq!(registry.get("b"), Some(&2));
    assert_eq!(registry.get("c"), None);
    assert!(!registry.is_registered(""));
}

#[test]
fn the_builtin_kinds_are_file_and_console() {
    let calls = Arc::new(AtomicUsize::new(0));
    let mut deserializers = Deserializers::with_builtins(marker("f:", &calls), marker("c:", &calls));
    assert!(deserializers.appenders().is_registered("file"));
    assert!(deserializers.appenders().is_registered("console"));
    assert!(!deserializers.appenders().is_registered("socket"));
    assert!(!deserializers.encoders().is_registered("upper"));
    let built = deserializers.appenders().build("console", Value::String("z".to_string())).ok().unwrap();
    assert_eq!(mark_of(&built), "c:z");
    let built = deserializers.appenders().build("file", Value::String("z".to_string())).ok().unwrap();
    assert_eq!(mark_of(&built), "f:z");

    deserializers.insert_appender("socket", marker("s:", &calls));
    deserializers.insert_appender("file", marker("new:", &calls));
    deserializers.insert_encoder("upper", Box::new(UpperMaker));
    assert!(deserializers.appenders().is_registered("socket"));
    assert!(deserializers.encoders().is_registered("upper"));
    let built = deserializers.appenders().build("socket", Value::String("z".to_string())).ok().unwrap();
    assert_eq!(mark_of(&built), "s:z");
    let built = deserializers.appenders().build("file", Value::String("z".to_string())).ok().unwrap();
    assert_eq!(mark_of(&built), "new:z");
    let built = deserializers.appenders().build("console", Value::String("z".to_string())).ok().unwrap();
    assert_eq!(mark_of(&built), "c:z");
    let encoder = deserializers.encoders().build("upper", Value::Unit).ok().unwrap();
    let mut out = Vec::new();
    encoder.encode(&mut out, &Record::new(Level::Info, "t", "loud")).unwrap();
    assert_eq!(out, b"LOUD");

    let nothing = Deserializers::new();
    assert!(!nothing.appenders().is_registered("file"));
}

#[test]
fn a_configuration_is_built_from_data() {
    let calls = Arc::new(AtomicUsize::new(0));
    let deserializers = Deserializers::with_builtins(marker("f:", &calls), marker("c:", &calls));
    let raw_config = RawConfig {
        appenders: vec![raw("main", "file", "one"), raw("screen", "console", "two")],
        root: root(&["screen"]),
        loggers: vec![Logger::builder().appender("main".to_string()).build("a".to_string(), LevelFilter::Debug)],
    };
    let config = build_config(raw_config, &deserializers).ok().unwrap();
    assert_eq!(config.appender_names(), &vec!["main".to_string(), "screen".to_string()]);
    assert_eq!(mark_of(config.appender(0).unwrap()), "f:one");
    assert_eq!(mark_of(config.appender(1).unwrap()), "c:two");
    assert_eq!(config.loggers()[0].name(), "a");
    assert_eq!(calls.load(Ordering::SeqCst), 2);
}

#[test]
fn names_are_checked_before_anything_is_built() {
    let calls = Arc::new(AtomicUsize::new(0));
    let deserializers = Deserializers::with_builtins(marker("f:", &calls), marker("c:", &calls));
    let raw_config = RawConfig {
        appenders: vec![raw("main", "file", "one"), raw("main", "socket", "two")],
        root: root(&["missing"]),
        loggers: vec![],
    };
    let refused = build_config(raw_config, &deserializers);
    assert!(matches!(refused, Err(ConfigError::DuplicateSinkName(n)) if n == "main"));
    let raw_config = RawConfig {
        appenders: vec![raw("main", "socket", "one")],
        root: root(&["missing"]),
        loggers: vec![],
    };
    let refused = build_config(raw_config, &deserializers);
    assert!(matches!(refused, Err(ConfigError::UnknownSinkReference(n)) if n == "missing"));
    assert_eq!(calls.load(Ordering::SeqCst), 0);
}

#[test]
fn kinds_are_checked_before_anything_is_built() {
    let calls = Arc::new(AtomicUsize::new(0));
    let deserializers = Deserializers::with_builtins(marker("f:", &calls), marker("c:", &calls));
    let raw_config = RawConfig {
        appenders: vec![raw("a", "file", "one"), raw("b", "socket", "two"), raw("c", "pipe", "three")],
        root: root(&["a"]),
        loggers: vec![],
    };
    let refused = build_config(raw_config, &deserializers);
    assert!(matches!(refused, Err(ConfigError::UnknownKind(k)) if k == "socket"));
    assert_eq!(calls.load(Ordering::SeqCst), 0);
}

#[test]
fn the_first_constructor_that_fails_ends_the_build() {
    let calls = Arc::new(AtomicUsize::new(0));
    let deserializers = Deserializers::with_builtins(marker("f:", &calls), marker("c:", &calls));
    let raw_config = RawConfig {
        appenders: vec![raw("a", "file", "one"), raw("b", "console", "fail"), raw("c", "file", "three")],
        root: root(&["a"]),
        loggers: vec![],
    };
    let refused = build_config(raw_config, &deserializers);
    assert!(matches!(refused, Err(ConfigError::ComponentConstructionFailed(_))));
    assert_eq!(calls.load(Ordering::SeqCst), 2);
}

#[test]
fn a_configuration_without_appenders_is_always_built() {
    let nothing = Deserializers::new();
    let raw_config = RawConfig {
        appenders: vec![],
        root: root(&[]),
        loggers: vec![Logger::builder().build("a".to_string(), LevelFilter::Trace)],
    };
    let config = build_config(raw_config, &nothing).ok().unwrap();
    assert!(config.appender_names().is_empty());
    assert_eq!(config.loggers()[0].level(), LevelFilter::Trace);
}
