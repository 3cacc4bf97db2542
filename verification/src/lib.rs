//! A rotating log file, without the file.
//!
//! The crate decides what a size-bounded, append-only log does on each write:
//! what the record looks like, when the active file is archived, and under
//! which name. It performs no I/O itself: the caller tells a logging call the
//! size of the log file and the time, and the call returns the file operations
//! to carry out. [`disk`] gives those operations a meaning on an abstract file
//! system, and [`guarantees`] proves over it what rotation promises: that it
//! happens exactly from the threshold on, and that no record is lost by it.

pub mod decimal;
pub mod disk;
pub mod guarantees;
pub mod level;
pub mod logger;
pub mod ops;
pub mod record;
