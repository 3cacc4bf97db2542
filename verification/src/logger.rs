//! The logger: where it writes, when it rotates, and what each call asks of
//! the file system.

use vstd::prelude::*;
use vstd::string::StringExecFns;
use crate::level::LogLevel;
use crate::ops::{FileOp, LoggerError, Op};
use crate::record::{archive_name, archive_path, format_record, record_text};

verus! {

/// What a logger is set to: the file it writes and the size, in bytes, from
/// which that file is archived before the next record.
pub struct Target {
    pub path: Seq<char>,
    pub threshold: u64,
}

/// A logger that writes to one file and rotates it by size.
///
/// A process keeps at most one, in an `Option<Logger>` that is `None` until
/// the first [`Logger::init`].
#[derive(Debug)]
pub struct Logger {
    file_path: String,
    max_size: u64,
}

impl View for Logger {
    type V = Target;

    closed spec fn view(&self) -> Target {
        Target { path: self.file_path@, threshold: self.max_size }
    }
}

/// The target of the logger in `slot`, if one is installed.
pub open spec fn installed(slot: Option<Logger>) -> Option<Target> {
    match slot {
        Some(logger) => Some(logger@),
        None => None,
    }
}

/// The operations that archive the file of `target` at `now` and start a
/// new, empty one in its place.
pub open spec fn rotation_ops(target: Target, now: u64) -> Seq<Op> {
    seq![
        Op::Rename { from: target.path, to: archive_name(target.path, now) },
        Op::Open { path: target.path },
    ]
}

/// Whether a file of `size` bytes is due for rotation under `target`.
pub open spec fn is_full(target: Target, size: nat) -> bool {
    size >= target.threshold
}

/// The operations of one logging call that found the file at `size` bytes:
/// a rotation where the file is full, then the record.
pub open spec fn log_ops(target: Target, level: LogLevel, msg: Seq<char>, size: nat, now: u64) -> Seq<
    Op,
> {
    let write = seq![Op::Append { line: record_text(now, level, msg) }];
    if is_full(target, size) {
        rotation_ops(target, now) + write
    } else {
        write
    }
}

/// The operations of one logging call on a slot: those of its logger, and
/// none where no logger is installed.
pub open spec fn slot_ops(
    slot: Option<Target>,
    level: LogLevel,
    msg: Seq<char>,
    size: nat,
    now: u64,
) -> Seq<Op> {
    match slot {
        Some(target) => log_ops(target, level, msg, size, now),
        None => Seq::empty(),
    }
}

/// What a slot holds after an attempt to set it to `target`: the new target
/// where its file was opened, and what it held before where not.
pub open spec fn after_attempt(slot: Option<Target>, target: Target, opened: bool) -> Option<
    Target,
> {
    if opened {
        Some(target)
    } else {
        slot
    }
}

impl Logger {
    /// A logger set to `file_path` and `max_size`.
    pub fn new(file_path: &str, max_size: u64) -> (logger: Logger)
        ensures
            logger@ == (Target { path: file_path@, threshold: max_size }),
    {
        Logger { file_path: String::from_str(file_path), max_size }
    }

    /// The file this logger writes.
    pub fn file_path(&self) -> (path: &str)
        ensures
            path@ == self@.path,
    {
        self.file_path.as_str()
    }

    /// The size in bytes from which the file is archived.
    pub fn max_size(&self) -> (max: u64)
        ensures
            max == self@.threshold,
    {
        self.max_size
    }

    /// Installs a logger on `file_path` in `slot`, in place of whatever it
    /// held. `opened` says whether the caller could open `file_path` for
    /// appending; where it could not, the slot is left as it was and the
    /// call fails with [`LoggerError::Init`].
    pub fn init(slot: &mut Option<Logger>, file_path: &str, max_size: u64, opened: bool) -> (r:
        Result<(), LoggerError>)
        ensures
            installed(*final(slot)) == after_attempt(
                installed(*old(slot)),
                Target { path: file_path@, threshold: max_size },
                opened,
            ),
            !opened ==> *final(slot) == *old(slot),
            r == if opened {
                Ok::<(), LoggerError>(())
            } else {
                Err::<(), LoggerError>(LoggerError::Init)
            },
    {
        if !opened {
            return Err(LoggerError::Init);
        }
        *slot = Some(Logger::new(file_path, max_size));
        Ok(())
    }

    /// Points the logger in `slot` at `file_path` with the threshold
    /// `max_size`, both at once; on an empty slot this is [`Logger::init`].
    /// `opened` says whether the caller could open `file_path` for
    /// appending; where it could not, the slot is left as it was and the
    /// call fails: with [`LoggerError::Reconfig`] where a logger was
    /// installed, with [`LoggerError::Init`] where none was.
    pub fn reinit(slot: &mut Option<Logger>, file_path: &str, max_size: u64, opened: bool) -> (r:
        Result<(), LoggerError>)
        ensures
            installed(*final(slot)) == after_attempt(
                installed(*old(slot)),
                Target { path: file_path@, threshold: max_size },
                opened,
            ),
            !opened ==> *final(slot) == *old(slot),
            r == if opened {
                Ok::<(), LoggerError>(())
            } else if old(slot).is_some() {
                Err::<(), LoggerError>(LoggerError::Reconfig)
            } else {
                Err::<(), LoggerError>(LoggerError::Init)
            },
    {
        if slot.is_none() {
            return Logger::init(slot, file_path, max_size, opened);
        }
        if !opened {
            return Err(LoggerError::Reconfig);
        }
        *slot = Some(Logger::new(file_path, max_size));
        Ok(())
    }

    /// The operations that archive the log file at `now` and start a new one.
    pub fn rotate_file(&self, now: u64) -> (ops: Vec<FileOp>)
        ensures
            ops.deep_view() == rotation_ops(self@, now),
    {
        let mut ops: Vec<FileOp> = Vec::new();
        ops.push(
            FileOp::Rename {
                from: self.file_path.clone(),
                to: archive_path(self.file_path.as_str(), now),
            },
        );
        ops.push(FileOp::Open { path: self.file_path.clone() });
        assert(ops.deep_view() =~= rotation_ops(self@, now));
        ops
    }

    /// The operations that record `msg` at `level`, given that the log file
    /// was found at `size` bytes and the clock at `now` seconds since the
    /// epoch: the file is rotated first where `size` has reached the
    /// threshold, and the record is appended in either case.
    pub fn log(&self, level: LogLevel, msg: &str, size: u64, now: u64) -> (ops: Vec<FileOp>)
        ensures
            ops.deep_view() == log_ops(self@, level, msg@, size as nat, now),
    {
        let mut ops: Vec<FileOp> = if size >= self.max_size {
            self.rotate_file(now)
        } else {
            Vec::new()
        };
        let ghost before = ops.deep_view();
        ops.push(FileOp::Append { line: format_record(now, level, msg) });
        assert(ops.deep_view() =~= before + seq![Op::Append { line: record_text(now, level, msg@) }]);
        ops
    }

    /// The operations that record `msg` as information through the logger
    /// in `slot`; none where the slot is empty.
    pub fn info(slot: &Option<Logger>, msg: &str, size: u64, now: u64) -> (ops: Vec<FileOp>)
        ensures
            ops.deep_view() == slot_ops(installed(*slot), LogLevel::Info, msg@, size as nat, now),
    {
        Logger::record(slot, LogLevel::Info, msg, size, now)
    }

    /// The operations that record `msg` as a warning through the logger in
    /// `slot`; none where the slot is empty.
    pub fn warn(slot: &Option<Logger>, msg: &str, size: u64, now: u64) -> (ops: Vec<FileOp>)
        ensures
            ops.deep_view() == slot_ops(installed(*slot), LogLevel::Warn, msg@, size as nat, now),
    {
        Logger::record(slot, LogLevel::Warn, msg, size, now)
    }

    /// The operations that record `msg` as an error through the logger in
    /// `slot`; none where the slot is empty.
    pub fn error(slot: &Option<Logger>, msg: &str, size: u64, now: u64) -> (ops: Vec<FileOp>)
        ensures
            ops.deep_view() == slot_ops(installed(*slot), LogLevel::Error, msg@, size as nat, now),
    {
        Logger::record(slot, LogLevel::Error, msg, size, now)
    }

    fn record(slot: &Option<Logger>, level: LogLevel, msg: &str, size: u64, now: u64) -> (ops: Vec<
        FileOp,
    >)
        ensures
            ops.deep_view() == slot_ops(installed(*slot), level, msg@, size as nat, now),
    {
        match slot {
            Some(logger) => logger.log(level, msg, size, now),
            None => {
                let ops: Vec<FileOp> = Vec::new();
                assert(ops.deep_view() =~= Seq::<Op>::empty());
                ops
            },
        }
    }
}

} // verus!
