use std::collections::HashMap;
use std::sync::{Arc, Mutex};

use log4rs::append::file::{FileAppender, Open, OpenMode};
use log4rs::config::{Appender, Config, Logger, Root};
use log4rs::encode::Write;
use log4rs::error::{ConfigError, IoError};
use log4rs::handle::install;
use log4rs::level::{Level, LevelFilter};
use log4rs::record::Record;

/// Files in memory: what each path holds.
#[derive(Clone, Default)]
struct Disk {
    files: Arc<Mutex<HashMap<String, Arc<Mutex<Vec<u8>>>>>>,
}

impl Disk {
    fn rename(&self, from: &str, to: &str) {
        let mut files = self.files.lock().unwrap();
        let file = files.remove(from).unwrap();
        files.insert(to.to_string(), file);
    }

    fn contents(&self, path: &str) -> String {
        let files = self.files.lock().unwrap();
        let bytes = files.get(path).unwrap().lock().unwrap().clone();
        String::from_utf8(bytes).unwrap()
    }
}

struct Handle {
    file: Arc<Mutex<Vec<u8>>>,
    pending: Vec<u8>,
}

impl Write for Handle {
    fn write_all(&mut self, bytes: &[u8]) -> Result<(), IoError> {
        self.pending.extend_from_slice(bytes);
        Ok(())
    }

    fn flush(&mut self) -> Result<(), IoError> {
        self.file.lock().unwrap().append(&mut self.pending);
        Ok(())
    }
}

impl Open for Disk {
    fn open(&self, path: &str, mode: &OpenMode) -> Result<Box<dyn Write>, IoError> {
        let mut files = self.files.lock().unwrap();
        let file = files.entry(path.to_string()).or_default().clone();
        if mode.truncate {
            file.lock().unwrap().clear();
        }
        Ok(Box::new(Handle { file, pending: Vec::new() }))
    }
}

/// Get config for a simple logger
fn logger_config(target: &str, disk: &Disk) -> Result<Config, ConfigError> {
    let appender = Box::new(FileAppender::builder().build(target, Box::new(disk.clone())).unwrap());

    let builder = Config::builder()
        .appender(Appender::builder().build("file".into(), appender))
        .logger(
            Logger::builder()
                .appender("file".into())
                .additive(false)
                .build("reopen".into(), LevelFilter::Warn),
        );

    let root = Root::builder().appender("file".into()).build(LevelFilter::Error);

    builder.build(root)
}

/// Check that file rotation results in logs arriving at the reopened file
#[test]
fn file() {
    let target = "./appender.log";
    let rotated = "./appender.log.0";
    let disk = Disk::default();

    let config = logger_config(target, &disk).unwrap();
    let handle = install(config);

    // Log before rotating file
    handle.dispatch(&Record::new(Level::Warn, "reopen", "before"));
    // Rotate file
    disk.rename(target, rotated);
    // Log after rotate file before appender is notified
    handle.dispatch(&Record::new(Level::Warn, "reopen", "renamed"));

    // Reopen appenders
    let reopened = handle.notify_rotation();
    assert!(reopened.iter().all(|d| d.result.is_ok()));

    // Log after rotating and reopening file
    handle.dispatch(&Record::new(Level::Warn, "reopen", "after"));

    // Read file contents
    let old_contents = disk.contents(rotated);
    let new_contents = disk.contents(target);

    // Check before rotate and before reopen logs are in old_contents (rotated)
    assert!(old_contents.contains("before"));
    assert!(old_contents.contains("renamed"));

    // Check after rotate and reopen logs are in new_contents (target)
    assert!(new_contents.contains("after"));
}

#[test]
fn every_record_lands_in_exactly_one_file_across_a_rotation() {
    let target = "log";
    let rotated = "log.0";
    let disk = Disk::default();
    let handle = install(logger_config(target, &disk).unwrap());

    for i in 0..10 {
        handle.dispatch(&Record::new(Level::Error, "reopen", &format!("tag-{}", i)));
    }
    disk.rename(target, rotated);
    handle.notify_rotation();
    for i in 10..25 {
        handle.dispatch(&Record::new(Level::Error, "reopen", &format!("tag-{}", i)));
    }

    let before = disk.contents(rotated);
    let after = disk.contents(target);
    assert_eq!(before.lines().count(), 10);
    assert_eq!(after.lines().count(), 15);
    for i in 0..25 {
        let line = format!("ERROR reopen - tag-{}", i);
        let hits = before.lines().filter(|l| *l == line).count()
            + after.lines().filter(|l| *l == line).count();
        assert_eq!(hits, 1);
    }
}

#[test]
fn an_error_reaches_the_file_of_the_root_and_an_info_does_not() {
    let disk = Disk::default();
    let path = "root.log";
    // the file holds something already, and the appender appends to it
    let mut earlier = disk.open(path, &log4rs::append::file::open_mode(true)).ok().unwrap();
    earlier.write_all(b"earlier\n").unwrap();
    earlier.flush().unwrap();

    let appender = FileAppender::builder().build(path, Box::new(disk.clone())).unwrap();
    let config = Config::builder()
        .appender(Appender::builder().build("F".into(), Box::new(appender)))
        .build(Root::builder().appender("F".into()).build(LevelFilter::Warn))
        .unwrap();
    let handle = install(config);

    let dropped = handle.dispatch(&Record::new(Level::Info, "x", "too quiet"));
    assert!(dropped.is_empty());
    assert_eq!(disk.contents(path), "earlier\n");

    let passed = handle.dispatch(&Record::new(Level::Error, "x", "loud enough"));
    assert_eq!(passed.len(), 1);
    assert_eq!(passed[0].appender, 0);
    assert!(passed[0].result.is_ok());
    assert_eq!(disk.contents(path), "earlier\nERROR x - loud enough\n");
}
