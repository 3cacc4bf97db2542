//! An abstract file system, and what the operations of a logging call do to
//! it.
//!
//! Nothing here runs. The module says what the operations mean when each of
//! them succeeds, so that the guarantees of the logger can be stated and
//! proved over the files that result.

use vstd::prelude::*;
use vstd::utf8::encode_utf8;
use crate::ops::Op;

verus! {

/// The files of a directory tree, by name, and the name of the one file
/// that the logger holds open.
pub struct Disk {
    /// The content of each file that exists.
    pub files: Map<Seq<char>, Seq<u8>>,
    /// The name of the file that the open handle refers to.
    pub active: Seq<char>,
}

impl Disk {
    /// Whether these files allow `op`. A rename needs its source and a free
    /// name to move it to: systems differ on a rename onto an existing file,
    /// which some refuse and others carry out by replacing that file, so
    /// nothing is claimed of one. An append needs the active file. An open
    /// needs nothing of the files; what else may stop one (rights, space) is
    /// not modelled.
    pub open spec fn admits(self, op: Op) -> bool {
        match op {
            Op::Rename { from, to } => self.files.contains_key(from) && !self.files.contains_key(to),
            Op::Open { path } => true,
            Op::Append { line } => self.files.contains_key(self.active),
        }
    }

    /// The disk after `op` has succeeded.
    ///
    /// A rename moves the content to the new name, and the open handle
    /// follows the file. An open creates the file empty
    /// where it is missing, keeps its content where it exists, and makes it
    /// the active file. An append adds the bytes of the line to the active
    /// file.
    pub open spec fn apply(self, op: Op) -> Disk {
        match op {
            Op::Rename { from, to } => Disk {
                files: self.files.remove(from).insert(to, self.files[from]),
                active: if self.active == from {
                    to
                } else {
                    self.active
                },
            },
            Op::Open { path } => Disk {
                files: if self.files.contains_key(path) {
                    self.files
                } else {
                    self.files.insert(path, Seq::empty())
                },
                active: path,
            },
            Op::Append { line } => Disk {
                files: self.files.insert(self.active, self.files[self.active] + encode_utf8(line)),
                active: self.active,
            },
        }
    }

    /// Whether the files allow the operations of `ops`, one after another.
    pub open spec fn admits_all(self, ops: Seq<Op>) -> bool
        decreases ops.len(),
    {
        ops.len() > 0 ==> self.admits(ops[0]) && self.apply(ops[0]).admits_all(ops.skip(1))
    }

    /// The disk after the operations of `ops` have succeeded in order.
    pub open spec fn run(self, ops: Seq<Op>) -> Disk
        decreases ops.len(),
    {
        if ops.len() == 0 {
            self
        } else {
            self.apply(ops[0]).run(ops.skip(1))
        }
    }

    /// The size in bytes of the file `path`.
    pub open spec fn size(self, path: Seq<char>) -> nat {
        self.files[path].len()
    }

    /// Whether the open handle is on `path` and that file exists: the state
    /// in which a logger set to `path` finds the disk between two calls.
    pub open spec fn serves(self, path: Seq<char>) -> bool {
        self.active == path && self.files.contains_key(path)
    }
}

/// Running one operation applies it.
pub proof fn run_of_one(disk: Disk, a: Op)
    ensures
        disk.run(seq![a]) == disk.apply(a),
        disk.admits_all(seq![a]) == disk.admits(a),
{
    let ops = seq![a];
    assert(ops.skip(1) =~= Seq::<Op>::empty());
    assert(disk.apply(a).run(ops.skip(1)) == disk.apply(a));
    assert(disk.apply(a).admits_all(ops.skip(1)));
}

/// Running a sequence of operations runs its first part, then the rest.
pub proof fn run_of_concat(disk: Disk, first: Seq<Op>, rest: Seq<Op>)
    ensures
        disk.run(first + rest) == disk.run(first).run(rest),
        disk.admits_all(first + rest) == (disk.admits_all(first) && disk.run(first).admits_all(
            rest,
        )),
    decreases first.len(),
{
    if first.len() == 0 {
        assert(first + rest =~= rest);
    } else {
        assert((first + rest).skip(1) =~= first.skip(1) + rest);
        run_of_concat(disk.apply(first[0]), first.skip(1), rest);
    }
}

/// Opening a file makes the disk serve it, creates it empty where it was
/// missing, and changes no content that was there.
pub proof fn open_serves(disk: Disk, path: Seq<char>)
    ensures
        disk.apply(Op::Open { path }).serves(path),
        !disk.files.contains_key(path) ==> disk.apply(Op::Open { path }).files[path]
            == Seq::<u8>::empty(),
        forall|name: Seq<char>| #[trigger]
            disk.files.contains_key(name) ==> disk.apply(Op::Open { path }).files.contains_key(
                name,
            ) && disk.apply(Op::Open { path }).files[name] == disk.files[name],
        forall|name: Seq<char>|
            name != path ==> (#[trigger] disk.apply(Op::Open { path }).files.contains_key(name)
                == disk.files.contains_key(name)),
{
}

} // verus!
