use std::collections::HashMap;

use rust_simple_logger::logger::Logger;
use rust_simple_logger::ops::{FileOp, LoggerError};

/// Files in memory, one open handle, and a clock that the test sets. A
/// rename onto a name that is taken fails.
struct MemDisk {
    files: HashMap<String, Vec<u8>>,
    active: Option<String>,
    now: u64,
}

impl MemDisk {
    fn new(now: u64) -> MemDisk {
        MemDisk { files: HashMap::new(), active: None, now }
    }

    fn open(&mut self, path: &str) -> bool {
        self.files.entry(path.to_string()).or_default();
        self.active = Some(path.to_string());
        true
    }

    fn size(&self, path: &str) -> u64 {
        self.files[path].len() as u64
    }

    fn text(&self, path: &str) -> String {
        String::from_utf8(self.files[path].clone()).expect("records are text")
    }

    fn perform(&mut self, op: &FileOp) -> bool {
        match op {
            FileOp::Rename { from, to } => {
                if self.files.contains_key(to) {
                    return false;
                }
                match self.files.remove(from) {
                    Some(content) => {
                        self.files.insert(to.clone(), content);
                        if self.active.as_deref() == Some(from.as_str()) {
                            self.active = Some(to.clone());
                        }
                        true
                    }
                    None => false,
                }
            }
            FileOp::Open { path } => self.open(path),
            FileOp::Append { line } => match self.active.clone() {
                Some(name) => {
                    self.files.get_mut(&name).expect("the open file exists").extend_from_slice(
                        line.as_bytes(),
                    );
                    true
                }
                None => false,
            },
        }
    }

    fn run(&mut self, ops: &[FileOp]) -> Result<(), LoggerError> {
        for op in ops {
            if !self.perform(op) {
                return Err(op.failure());
            }
        }
        Ok(())
    }

    fn init(&mut self, slot: &mut Option<Logger>, path: &str, max_size: u64) {
        let opened = self.open(path);
        Logger::init(slot, path, max_size, opened).expect("the file opens");
    }

    fn reinit(&mut self, slot: &mut Option<Logger>, path: &str, max_size: u64) {
        let opened = self.open(path);
        Logger::reinit(slot, path, max_size, opened).expect("the file opens");
    }

    fn info(&mut self, slot: &Option<Logger>, msg: &str) -> usize {
        let size = match slot {
            Some(logger) => self.size(logger.file_path()),
            None => 0,
        };
        let ops = Logger::info(slot, msg, size, self.now);
        self.run(&ops).expect("the operations succeed");
        ops.len()
    }

    fn lines_under(&self, path: &str) -> Vec<String> {
        let mut names: Vec<&String> =
            self.files.keys().filter(|n| n.as_str() != path && n.starts_with(path)).collect();
        names.sort_by_key(|n| n[path.len() + 1..].parse::<u64>().expect("a time follows the dot"));
        let mut lines = Vec::new();
        for name in names {
            lines.extend(self.text(name).lines().map(|l| l.to_string()));
        }
        lines.extend(self.text(path).lines().map(|l| l.to_string()));
        lines
    }
}

#[test]
fn test_logging() {
    let mut disk = MemDisk::new(1_700_000_000);
    let mut slot: Option<Logger> = None;

    disk.init(&mut slot, "test.log", 1024);
    for i in 0..1000 {
        disk.info(&slot, &format!("This is an info message {}", i));
        disk.now += 1;
    }

    disk.reinit(&mut slot, "new_test.log", 2048);
    for i in 0..1000 {
        disk.info(&slot, &format!("This is another info message {}", i));
        disk.now += 1;
    }

    let first = disk.lines_under("test.log");
    assert_eq!(first.len(), 1000);
    for (i, line) in first.iter().enumerate() {
        let at = 1_700_000_000 + i as u64;
        assert_eq!(line, &format!("[{}][INFO] This is an info message {}", at, i));
    }
    let second = disk.lines_under("new_test.log");
    assert_eq!(second.len(), 1000);
    for (i, line) in second.iter().enumerate() {
        let at = 1_700_001_000 + i as u64;
        assert_eq!(line, &format!("[{}][INFO] This is another info message {}", at, i));
    }
    for (name, content) in &disk.files {
        if name.starts_with("test.log.") {
            assert!(content.len() >= 1024);
        }
        if name.starts_with("new_test.log.") {
            assert!(content.len() >= 2048);
        }
    }
    assert!(disk.size("test.log") < 1024 + 64);
    assert!(disk.size("new_test.log") < 2048 + 64);
    assert_eq!(disk.active.as_deref(), Some("new_test.log"));
}

#[test]
fn full_file_is_archived_and_the_message_starts_a_new_one() {
    let mut disk = MemDisk::new(500);
    let mut slot: Option<Logger> = None;
    disk.init(&mut slot, "a.log", 100);

    let mut written = Vec::new();
    let mut n = 0;
    while disk.size("a.log") < 100 {
        let msg = format!("message {}", n);
        assert_eq!(disk.info(&slot, &msg), 1);
        written.push(format!("[500][INFO] {}\n", msg));
        n += 1;
    }
    let before = disk.text("a.log");
    assert_eq!(before, written.concat());
    assert!(before.len() >= 100);
    assert_eq!(disk.files.len(), 1);

    disk.now = 777;
    assert_eq!(disk.info(&slot, "the one that rotates"), 3);

    assert_eq!(disk.files.len(), 2);
    assert_eq!(disk.text("a.log.777"), before);
    assert_eq!(disk.text("a.log"), "[777][INFO] the one that rotates\n");
    assert!(!disk.text("a.log.777").contains("the one that rotates"));
    assert_eq!(disk.active.as_deref(), Some("a.log"));
}

#[test]
fn rotation_triggers_exactly_when_the_size_reaches_the_threshold() {
    let line_len = "[9][INFO] 0123456789\n".len() as u64;
    assert_eq!(line_len, 21);
    let mut disk = MemDisk::new(9);
    let mut slot: Option<Logger> = None;
    disk.init(&mut slot, "t.log", 3 * line_len);

    assert_eq!(disk.info(&slot, "0123456789"), 1);
    assert_eq!(disk.info(&slot, "0123456789"), 1);
    assert_eq!(disk.size("t.log"), 2 * line_len);
    assert_eq!(disk.info(&slot, "0123456789"), 1);
    assert_eq!(disk.size("t.log"), 3 * line_len);
    assert_eq!(disk.files.len(), 1);

    assert_eq!(disk.info(&slot, "0123456789"), 3);
    assert_eq!(disk.size("t.log.9"), 3 * line_len);
    assert_eq!(disk.size("t.log"), line_len);
}

#[test]
fn no_record_is_lost_across_one_rotation() {
    let mut disk = MemDisk::new(40);
    let mut slot: Option<Logger> = None;
    disk.init(&mut slot, "n.log", 200);

    let mut rotations = 0;
    for i in 0..12 {
        if disk.info(&slot, &format!("record number {}", i)) == 3 {
            rotations += 1;
        }
    }
    assert_eq!(rotations, 1);
    assert_eq!(disk.files.len(), 2);

    let lines = disk.lines_under("n.log");
    assert_eq!(lines.len(), 12);
    for (i, line) in lines.iter().enumerate() {
        assert_eq!(line, &format!("[40][INFO] record number {}", i));
    }
    let archived = disk.text("n.log.40");
    let active = disk.text("n.log");
    assert_eq!(archived.lines().count() + active.lines().count(), 12);
    assert!(archived.ends_with('\n'));
    assert!(active.ends_with('\n'));
}

#[test]
fn size_is_counted_in_bytes() {
    let mut disk = MemDisk::new(1);
    let mut slot: Option<Logger> = None;
    disk.init(&mut slot, "u.log", 16);
    assert_eq!(disk.info(&slot, "\u{e9}\u{e9}\u{e9}"), 1);
    assert_eq!(disk.text("u.log"), "[1][INFO] \u{e9}\u{e9}\u{e9}\n");
    assert_eq!(disk.size("u.log"), 17);
    assert_eq!(disk.info(&slot, "next"), 3);
    assert_eq!(disk.text("u.log.1"), "[1][INFO] \u{e9}\u{e9}\u{e9}\n");
    assert_eq!(disk.text("u.log"), "[1][INFO] next\n");
}

#[test]
fn calls_after_reconfiguration_write_to_the_new_file() {
    let mut disk = MemDisk::new(3);
    let mut slot: Option<Logger> = None;
    disk.init(&mut slot, "old.log", 1000);
    disk.info(&slot, "one");
    disk.reinit(&mut slot, "new.log", 10);
    disk.info(&slot, "two");
    assert_eq!(disk.text("old.log"), "[3][INFO] one\n");
    assert_eq!(disk.text("new.log"), "[3][INFO] two\n");
    assert_eq!(disk.info(&slot, "three"), 3);
    assert_eq!(disk.text("old.log"), "[3][INFO] one\n");
    assert_eq!(disk.text("new.log.3"), "[3][INFO] two\n");
    assert_eq!(disk.text("new.log"), "[3][INFO] three\n");
}

#[test]
fn calls_after_failed_reconfiguration_write_to_the_old_file() {
    let mut disk = MemDisk::new(3);
    let mut slot: Option<Logger> = None;
    disk.init(&mut slot, "old.log", 30);
    disk.info(&slot, "one");
    assert_eq!(Logger::reinit(&mut slot, "new.log", 1, false), Err(LoggerError::Reconfig));
    assert_eq!(disk.info(&slot, "two"), 1);
    assert_eq!(disk.text("old.log"), "[3][INFO] one\n[3][INFO] two\n");
    assert!(!disk.files.contains_key("new.log"));
    disk.now = 4;
    assert_eq!(disk.info(&slot, "three"), 1);
    assert_eq!(disk.info(&slot, "four"), 3);
    assert_eq!(disk.text("old.log"), "[4][INFO] four\n");
}

#[test]
fn reopening_an_existing_file_keeps_its_content() {
    let mut disk = MemDisk::new(8);
    disk.files.insert(String::from("kept.log"), b"earlier\n".to_vec());
    let mut slot: Option<Logger> = None;
    disk.init(&mut slot, "kept.log", 1000);
    disk.info(&slot, "later");
    assert_eq!(disk.text("kept.log"), "earlier\n[8][INFO] later\n");
}

#[test]
fn failed_rename_stops_the_call_with_a_rotation_error() {
    let mut disk = MemDisk::new(8);
    let mut slot: Option<Logger> = None;
    assert_eq!(Logger::init(&mut slot, "gone.log", 0, true), Ok(()));
    let ops = Logger::error(&slot, "never written", 0, 8);
    assert_eq!(disk.run(&ops), Err(LoggerError::Rotate));
    assert!(disk.files.is_empty());
}

#[test]
fn failed_append_is_a_write_error() {
    let mut disk = MemDisk::new(8);
    let mut slot: Option<Logger> = None;
    assert_eq!(Logger::init(&mut slot, "closed.log", 100, true), Ok(()));
    let ops = Logger::error(&slot, "never written", 0, 8);
    assert_eq!(disk.run(&ops), Err(LoggerError::Write));
}

#[test]
fn second_rotation_in_one_second_fails_and_loses_nothing() {
    let mut disk = MemDisk::new(60);
    let mut slot: Option<Logger> = None;
    disk.init(&mut slot, "s.log", 10);
    assert_eq!(disk.info(&slot, "first"), 1);
    assert_eq!(disk.info(&slot, "second"), 3);
    assert_eq!(disk.text("s.log.60"), "[60][INFO] first\n");
    assert_eq!(disk.text("s.log"), "[60][INFO] second\n");

    let size = disk.size("s.log");
    let ops = Logger::info(&slot, "third", size, 60);
    assert_eq!(ops.len(), 3);
    assert_eq!(disk.run(&ops), Err(LoggerError::Rotate));
    assert_eq!(disk.text("s.log.60"), "[60][INFO] first\n");
    assert_eq!(disk.text("s.log"), "[60][INFO] second\n");

    disk.now = 61;
    assert_eq!(disk.info(&slot, "third"), 3);
    assert_eq!(disk.text("s.log.61"), "[60][INFO] second\n");
    assert_eq!(disk.text("s.log"), "[61][INFO] third\n");
    assert_eq!(
        disk.lines_under("s.log"),
        vec!["[60][INFO] first", "[60][INFO] second", "[61][INFO] third"]
    );
}

#[test]
fn every_record_is_kept_across_many_rotations() {
    let mut disk = MemDisk::new(1000);
    let mut slot: Option<Logger> = None;
    disk.init(&mut slot, "m.log", 64);
    let mut rotations = 0;
    for i in 0..200 {
        if disk.info(&slot, &format!("entry {}", i)) == 3 {
            rotations += 1;
        }
        disk.now += 1;
    }
    assert!(rotations > 10);
    assert_eq!(disk.files.len(), rotations + 1);
    let lines = disk.lines_under("m.log");
    assert_eq!(lines.len(), 200);
    for (i, line) in lines.iter().enumerate() {
        assert_eq!(line, &format!("[{}][INFO] entry {}", 1000 + i, i));
    }
}
