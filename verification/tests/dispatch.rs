use std::sync::{Arc, Mutex};

use log4rs::append::Append;
use log4rs::config::{Appender, Config, Logger, Root};
use log4rs::error::AppendError;
use log4rs::level::{Level, LevelFilter};
use log4rs::probe::foo;
use log4rs::record::Record;
use log4rs::dispatch::Resolver;

/// An appender that keeps the messages it is given.
struct Memory {
    seen: Arc<Mutex<Vec<String>>>,
    fails: bool,
}

impl Append for Memory {
    fn append(&self, record: &Record) -> Result<(), AppendError> {
        if self.fails {
            return Err(AppendError::IoError("broken".to_string()));
        }
        self.seen.lock().unwrap().push(record.message().to_string());
        Ok(())
    }
}

fn memory(name: &str, seen: &Arc<Mutex<Vec<String>>>) -> Appender {
    Appender::builder().build(name.to_string(), Box::new(Memory { seen: seen.clone(), fails: false }))
}

fn broken(name: &str) -> Appender {
    let seen = Arc::new(Mutex::new(Vec::new()));
    Appender::builder().build(name.to_string(), Box::new(Memory { seen, fails: true }))
}

fn shelf() -> Arc<Mutex<Vec<String>>> {
    Arc::new(Mutex::new(Vec::new()))
}

fn names(resolver: &Resolver, at: &[usize]) -> Vec<String> {
    at.iter().map(|&i| resolver.appender_name(i).unwrap().to_string()).collect()
}

/// Three appenders `s0`, `s1`, `s2`; the root at `Error` with `s0`; `a` at `Debug` with `s1`,
/// not additive; `a.b.c` at `Trace` with `s2` and `s1`, additive; `d` at `Off` with `s0` and
/// `s2`, additive.
fn hierarchy() -> Resolver {
    let unused = shelf();
    let config = Config::builder()
        .appender(memory("s0", &unused))
        .appender(memory("s1", &unused))
        .appender(memory("s2", &unused))
        .logger(
            Logger::builder()
                .appender("s1".to_string())
                .additive(false)
                .build("a".to_string(), LevelFilter::Debug),
        )
        .logger(
            Logger::builder()
                .appender("s2".to_string())
                .appender("s1".to_string())
                .build("a.b.c".to_string(), LevelFilter::Trace),
        )
        .logger(
            Logger::builder()
                .appender("s0".to_string())
                .appender("s2".to_string())
                .build("d".to_string(), LevelFilter::Off),
        )
        .build(Root::builder().appender("s0".to_string()).build(LevelFilter::Error))
        .unwrap();
    Resolver::new(config)
}

#[test]
fn a_name_without_logger_uses_the_threshold_of_the_logger_above() {
    let resolver = hierarchy();
    assert_eq!(resolver.level_of("a"), LevelFilter::Debug);
    assert_eq!(resolver.level_of("a.b"), LevelFilter::Debug);
    assert_eq!(resolver.level_of("a.b.x.y"), LevelFilter::Debug);
    assert!(resolver.is_enabled("a.b", Level::Debug));
    assert!(resolver.is_enabled("a.b", Level::Error));
    assert!(!resolver.is_enabled("a.b", Level::Trace));
    assert_eq!(resolver.level_of("a.b.c"), LevelFilter::Trace);
    assert_eq!(resolver.level_of("a.b.c.d"), LevelFilter::Trace);
}

#[test]
fn only_whole_components_make_an_ancestor() {
    let resolver = hierarchy();
    assert_eq!(resolver.level_of("ab"), LevelFilter::Error);
    assert_eq!(resolver.level_of("a.b.cd"), LevelFilter::Debug);
    assert_eq!(resolver.level_of("x.a"), LevelFilter::Error);
    assert_eq!(resolver.level_of(""), LevelFilter::Error);
    assert_eq!(resolver.level_of("."), LevelFilter::Error);
    assert_eq!(resolver.level_of("a."), LevelFilter::Debug);
    assert_eq!(resolver.level_of("a..b"), LevelFilter::Debug);
    assert_eq!(resolver.level_of("A"), LevelFilter::Error);
    assert_eq!(resolver.level_of("d"), LevelFilter::Off);
    assert_eq!(resolver.level_of("d.e"), LevelFilter::Off);
}

#[test]
fn a_logger_that_is_not_additive_keeps_the_appenders_above_out() {
    let resolver = hierarchy();
    let own = resolver.appenders_of("a");
    assert_eq!(names(&resolver, &own), vec!["s1"]);
    let below = resolver.appenders_of("a.b");
    assert_eq!(names(&resolver, &below), vec!["s1"]);
}

#[test]
fn an_additive_logger_adds_the_appenders_above_up_to_the_stop() {
    let resolver = hierarchy();
    let at = resolver.appenders_of("a.b.c");
    assert_eq!(names(&resolver, &at), vec!["s2", "s1"]);
    let deeper = resolver.appenders_of("a.b.c.d");
    assert_eq!(names(&resolver, &deeper), vec!["s2", "s1"]);
}

#[test]
fn an_additive_logger_reaches_the_root_and_no_appender_comes_twice() {
    let resolver = hierarchy();
    let at = resolver.appenders_of("d");
    assert_eq!(names(&resolver, &at), vec!["s0", "s2"]);
    let other = resolver.appenders_of("unheard.of");
    assert_eq!(names(&resolver, &other), vec!["s0"]);
}

#[test]
fn resolving_twice_gives_the_same() {
    let resolver = hierarchy();
    for name in ["a", "a.b", "a.b.c", "d", "", "zzz"] {
        let first = resolver.resolve(name);
        let second = resolver.resolve(name);
        assert_eq!(first, second);
    }
    let again = hierarchy();
    assert_eq!(resolver.resolve("a.b.c"), again.resolve("a.b.c"));
    assert_eq!(resolver.resolve("a.b.c"), (LevelFilter::Trace, &vec![2, 1]));
}

#[test]
fn the_root_alone_drops_info_and_passes_error() {
    let seen = shelf();
    let config = Config::builder()
        .appender(memory("out", &seen))
        .build(Root::builder().appender("out".to_string()).build(LevelFilter::Warn))
        .unwrap();
    let resolver = Resolver::new(config);

    let dropped = resolver.dispatch(&Record::new(Level::Info, "x", "quiet"));
    assert!(dropped.is_empty());
    assert!(seen.lock().unwrap().is_empty());

    let passed = resolver.dispatch(&Record::new(Level::Error, "x", "loud"));
    assert_eq!(passed.len(), 1);
    assert_eq!(passed[0].appender, 0);
    assert!(passed[0].result.is_ok());
    assert_eq!(*seen.lock().unwrap(), vec!["loud".to_string()]);
}

#[test]
fn an_appender_that_fails_does_not_stop_the_others() {
    let seen = shelf();
    let config = Config::builder()
        .appender(broken("bad"))
        .appender(memory("good", &seen))
        .build(
            Root::builder()
                .appender("bad".to_string())
                .appender("good".to_string())
                .build(LevelFilter::Info),
        )
        .unwrap();
    let resolver = Resolver::new(config);
    let report = resolver.dispatch(&Record::new(Level::Warn, "any", "kept"));
    assert_eq!(report.len(), 2);
    assert_eq!(report[0].appender, 0);
    assert!(matches!(report[0].result, Err(AppendError::IoError(_))));
    assert_eq!(report[1].appender, 1);
    assert!(report[1].result.is_ok());
    assert_eq!(*seen.lock().unwrap(), vec!["kept".to_string()]);
}

#[test]
fn dispatch_follows_the_order_of_resolution() {
    let first = shelf();
    let second = shelf();
    let config = Config::builder()
        .appender(memory("s0", &first))
        .appender(memory("s1", &second))
        .logger(Logger::builder().appender("s1".to_string()).build("m".to_string(), LevelFilter::Info))
        .build(Root::builder().appender("s0".to_string()).build(LevelFilter::Off))
        .unwrap();
    let resolver = Resolver::new(config);
    let report = resolver.dispatch(&Record::new(Level::Info, "m.n", "hello"));
    let order: Vec<usize> = report.iter().map(|d| d.appender).collect();
    assert_eq!(order, vec![1, 0]);
    assert_eq!(*first.lock().unwrap(), vec!["hello".to_string()]);
    assert_eq!(*second.lock().unwrap(), vec!["hello".to_string()]);
    assert!(resolver.dispatch(&Record::new(Level::Debug, "m.n", "hush")).is_empty());
    assert!(resolver.dispatch(&Record::new(Level::Error, "other", "hush")).is_empty());
}

#[test]
fn a_rotation_is_announced_to_every_appender() {
    let resolver = hierarchy();
    let report = resolver.notify_rotation();
    assert_eq!(report.len(), 3);
    for (i, delivery) in report.iter().enumerate() {
        assert_eq!(delivery.appender, i);
        assert!(delivery.result.is_ok());
    }
    assert_eq!(resolver.appender_count(), 3);
    assert!(resolver.appender(3).is_none());
    assert!(resolver.appender(2).is_some());
    assert_eq!(resolver.appender_name(1), Some("s1"));
}

fn program_over_root(program_level: LevelFilter, root_level: LevelFilter, seen: &Arc<Mutex<Vec<String>>>) -> Resolver {
    let config = Config::builder()
        .appender(memory("s", seen))
        .logger(Logger::builder().build("demo".to_string(), program_level))
        .build(Root::builder().appender("s".to_string()).build(root_level))
        .unwrap();
    Resolver::new(config)
}

#[test]
fn foo_is_heard_through_the_logger_of_its_program() {
    let seen = shelf();
    let resolver = program_over_root(LevelFilter::Debug, LevelFilter::Error, &seen);
    let report = resolver.dispatch(&foo("demo"));
    assert_eq!(report.len(), 1);
    assert_eq!(report[0].appender, 0);
    assert!(report[0].result.is_ok());
    assert_eq!(*seen.lock().unwrap(), vec!["a".to_string()]);

    // another program's record has only the root above it
    assert!(resolver.dispatch(&foo("other")).is_empty());
    assert_eq!(seen.lock().unwrap().len(), 1);
}

#[test]
fn foo_is_dropped_where_its_program_is_kept_quiet() {
    let seen = shelf();
    for quiet in [LevelFilter::Off, LevelFilter::Error, LevelFilter::Warn] {
        let resolver = program_over_root(quiet, LevelFilter::Trace, &seen);
        assert!(resolver.dispatch(&foo("demo")).is_empty());
    }
    for loud in [LevelFilter::Info, LevelFilter::Debug, LevelFilter::Trace] {
        let resolver = program_over_root(loud, LevelFilter::Off, &seen);
        assert_eq!(resolver.dispatch(&foo("demo")).len(), 1);
    }
    assert_eq!(seen.lock().unwrap().len(), 3);
}
