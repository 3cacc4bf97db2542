//! What logging does to the files: the guarantees of rotation, proved over
//! the abstract disk.
//!
//! The calls of a process reach the logger one at a time, so a history is a
//! sequence of calls, whatever the number of callers.

use vstd::prelude::*;
use vstd::utf8::encode_utf8;
use crate::disk::{run_of_concat, run_of_one, Disk};
use crate::level::LogLevel;
use crate::logger::{after_attempt, is_full, log_ops, rotation_ops, slot_ops, Target};
use crate::ops::Op;
use crate::record::{archive_name, archive_name_is_not_path, record_text};

verus! {

/// One logging call: the message, its level, and the second at which the
/// call was made.
pub struct Entry {
    pub now: u64,
    pub level: LogLevel,
    pub msg: Seq<char>,
}

impl Entry {
    /// The bytes of the record of this call.
    pub open spec fn bytes(self) -> Seq<u8> {
        encode_utf8(record_text(self.now, self.level, self.msg))
    }
}

/// The operations of the call `entry` on a disk that serves `target`: the
/// call finds the file at the size it has on the disk.
pub open spec fn ops_of(target: Target, disk: Disk, entry: Entry) -> Seq<Op> {
    log_ops(target, entry.level, entry.msg, disk.size(target.path), entry.now)
}

/// The disk after the call `entry` has succeeded.
pub open spec fn logged(target: Target, disk: Disk, entry: Entry) -> Disk {
    disk.run(ops_of(target, disk, entry))
}

/// The disk after the calls `entries` have succeeded in order.
pub open spec fn logged_all(target: Target, disk: Disk, entries: Seq<Entry>) -> Disk
    decreases entries.len(),
{
    if entries.len() == 0 {
        disk
    } else {
        logged_all(target, logged(target, disk, entries[0]), entries.skip(1))
    }
}

/// Whether the files allow every operation of the calls `entries`, made in
/// order.
pub open spec fn feasible(target: Target, disk: Disk, entries: Seq<Entry>) -> bool
    decreases entries.len(),
{
    entries.len() > 0 ==> disk.admits_all(ops_of(target, disk, entries[0])) && feasible(
        target,
        logged(target, disk, entries[0]),
        entries.skip(1),
    )
}

/// Whether none of the calls `entries`, made in order, finds the file full.
pub open spec fn quiet(target: Target, disk: Disk, entries: Seq<Entry>) -> bool
    decreases entries.len(),
{
    entries.len() > 0 ==> !is_full(target, disk.size(target.path)) && quiet(
        target,
        logged(target, disk, entries[0]),
        entries.skip(1),
    )
}

/// The seconds of those calls among `entries`, made in order, that find the
/// file full and rotate it.
pub open spec fn rotation_times(target: Target, disk: Disk, entries: Seq<Entry>) -> Seq<u64>
    decreases entries.len(),
{
    if entries.len() == 0 {
        Seq::empty()
    } else {
        let rest = rotation_times(target, logged(target, disk, entries[0]), entries.skip(1));
        if is_full(target, disk.size(target.path)) {
            seq![entries[0].now] + rest
        } else {
            rest
        }
    }
}

/// The records of `entries`, one after another.
pub open spec fn records(entries: Seq<Entry>) -> Seq<u8>
    decreases entries.len(),
{
    if entries.len() == 0 {
        Seq::empty()
    } else {
        entries[0].bytes() + records(entries.skip(1))
    }
}

/// The content of the archives of `path` made at `times`, one after another.
pub open spec fn archived(path: Seq<char>, disk: Disk, times: Seq<u64>) -> Seq<u8>
    decreases times.len(),
{
    if times.len() == 0 {
        Seq::empty()
    } else {
        archived(path, disk, times.drop_last()) + disk.files[archive_name(path, times.last())]
    }
}

/// A rotation onto a free archive name can be carried out on a disk that
/// serves the target. It leaves the whole former content under the archive
/// name, which is not the name of the log file, and an empty log file that
/// the disk serves; no other file changes.
pub proof fn rotation_starts_empty(target: Target, disk: Disk, now: u64)
    requires
        disk.serves(target.path),
        !disk.files.contains_key(archive_name(target.path, now)),
    ensures
        disk.admits_all(rotation_ops(target, now)),
        archive_name(target.path, now) != target.path,
        disk.run(rotation_ops(target, now)).serves(target.path),
        disk.run(rotation_ops(target, now)).files == disk.files.insert(
            archive_name(target.path, now),
            disk.files[target.path],
        ).insert(target.path, Seq::empty()),
{
    let path = target.path;
    let archive = archive_name(path, now);
    let rename = Op::Rename { from: path, to: archive };
    let open = Op::Open { path };
    archive_name_is_not_path(path, now);
    assert(rotation_ops(target, now) =~= seq![rename] + seq![open]);
    run_of_one(disk, rename);
    run_of_one(disk.apply(rename), open);
    run_of_concat(disk, seq![rename], seq![open]);
    assert(disk.run(rotation_ops(target, now)).files =~= disk.files.insert(
        archive,
        disk.files[path],
    ).insert(path, Seq::empty()));
}

/// A call that finds the file below the threshold does not rotate: it
/// appends its record to the file and touches nothing else.
pub proof fn write_below_threshold(target: Target, disk: Disk, entry: Entry)
    requires
        disk.serves(target.path),
        !is_full(target, disk.size(target.path)),
    ensures
        disk.admits_all(ops_of(target, disk, entry)),
        logged(target, disk, entry).serves(target.path),
        logged(target, disk, entry).files == disk.files.insert(
            target.path,
            disk.files[target.path] + entry.bytes(),
        ),
{
    let write = Op::Append { line: record_text(entry.now, entry.level, entry.msg) };
    assert(ops_of(target, disk, entry) =~= seq![write]);
    run_of_one(disk, write);
}

/// A call that finds the file at or over the threshold rotates before it
/// writes. The archive holds the whole former content, the log file holds
/// the record of this call and nothing else, and no other file changes.
pub proof fn write_at_threshold(target: Target, disk: Disk, entry: Entry)
    requires
        disk.serves(target.path),
        is_full(target, disk.size(target.path)),
        !disk.files.contains_key(archive_name(target.path, entry.now)),
    ensures
        disk.admits_all(ops_of(target, disk, entry)),
        archive_name(target.path, entry.now) != target.path,
        logged(target, disk, entry).serves(target.path),
        logged(target, disk, entry).files == disk.files.insert(
            archive_name(target.path, entry.now),
            disk.files[target.path],
        ).insert(target.path, entry.bytes()),
{
    let path = target.path;
    let rotation = rotation_ops(target, entry.now);
    let write = Op::Append { line: record_text(entry.now, entry.level, entry.msg) };
    let fresh = disk.run(rotation);
    rotation_starts_empty(target, disk, entry.now);
    assert(ops_of(target, disk, entry) =~= rotation + seq![write]);
    run_of_concat(disk, rotation, seq![write]);
    run_of_one(fresh, write);
    assert(fresh.files[path] + entry.bytes() =~= entry.bytes());
    assert(logged(target, disk, entry).files =~= disk.files.insert(
        archive_name(path, entry.now),
        disk.files[path],
    ).insert(path, entry.bytes()));
}

/// The files allow a call that rotates only where its archive name is free.
pub proof fn feasible_rotation_finds_name_free(target: Target, disk: Disk, entry: Entry)
    requires
        is_full(target, disk.size(target.path)),
        disk.admits_all(ops_of(target, disk, entry)),
    ensures
        !disk.files.contains_key(archive_name(target.path, entry.now)),
{
    let ops = ops_of(target, disk, entry);
    assert(ops[0] == Op::Rename {
        from: target.path,
        to: archive_name(target.path, entry.now),
    });
}

/// A history is its first part, then the rest: in what it leaves on the
/// disk, in whether the files allow it, in its rotations and its records.
pub proof fn history_of_concat(target: Target, disk: Disk, first: Seq<Entry>, rest: Seq<Entry>)
    ensures
        logged_all(target, disk, first + rest) == logged_all(
            target,
            logged_all(target, disk, first),
            rest,
        ),
        feasible(target, disk, first + rest) == (feasible(target, disk, first) && feasible(
            target,
            logged_all(target, disk, first),
            rest,
        )),
        rotation_times(target, disk, first + rest) == rotation_times(target, disk, first)
            + rotation_times(target, logged_all(target, disk, first), rest),
        records(first + rest) == records(first) + records(rest),
    decreases first.len(),
{
    if first.len() == 0 {
        assert(first + rest =~= rest);
        assert(records(first) + records(rest) =~= records(rest));
        assert(rotation_times(target, disk, first) + rotation_times(target, disk, rest)
            =~= rotation_times(target, disk, rest));
    } else {
        let next = logged(target, disk, first[0]);
        assert((first + rest).skip(1) =~= first.skip(1) + rest);
        history_of_concat(target, next, first.skip(1), rest);
        assert(records(first + rest) =~= records(first) + records(rest));
        assert(rotation_times(target, disk, first + rest) =~= rotation_times(target, disk, first)
            + rotation_times(target, logged_all(target, disk, first), rest));
    }
}

/// A history of one call.
pub proof fn history_of_one(target: Target, disk: Disk, entry: Entry)
    ensures
        logged_all(target, disk, seq![entry]) == logged(target, disk, entry),
        feasible(target, disk, seq![entry]) == disk.admits_all(ops_of(target, disk, entry)),
        rotation_times(target, disk, seq![entry]) == if is_full(target, disk.size(target.path)) {
            seq![entry.now]
        } else {
            Seq::<u64>::empty()
        },
        records(seq![entry]) == entry.bytes(),
{
    let one = seq![entry];
    let next = logged(target, disk, entry);
    assert(one.skip(1) =~= Seq::<Entry>::empty());
    assert(logged_all(target, next, one.skip(1)) == next);
    assert(feasible(target, next, one.skip(1)));
    assert(rotation_times(target, next, one.skip(1)) =~= Seq::<u64>::empty());
    assert(records(one.skip(1)) =~= Seq::<u8>::empty());
    assert(records(one) =~= entry.bytes());
    assert(rotation_times(target, disk, one) =~= if is_full(target, disk.size(target.path)) {
        seq![entry.now]
    } else {
        Seq::<u64>::empty()
    });
}

/// Calls of which none finds the file full append their records to it, in
/// order, and touch nothing else.
pub proof fn quiet_calls_append(target: Target, disk: Disk, entries: Seq<Entry>)
    requires
        disk.serves(target.path),
        quiet(target, disk, entries),
    ensures
        feasible(target, disk, entries),
        logged_all(target, disk, entries).serves(target.path),
        logged_all(target, disk, entries).files == disk.files.insert(
            target.path,
            disk.files[target.path] + records(entries),
        ),
    decreases entries.len(),
{
    let path = target.path;
    if entries.len() == 0 {
        assert(disk.files[path] + records(entries) =~= disk.files[path]);
        assert(disk.files =~= disk.files.insert(path, disk.files[path] + records(entries)));
    } else {
        let next = logged(target, disk, entries[0]);
        write_below_threshold(target, disk, entries[0]);
        quiet_calls_append(target, next, entries.skip(1));
        assert(next.files[path] + records(entries.skip(1)) =~= disk.files[path] + records(entries));
        assert(logged_all(target, disk, entries).files =~= disk.files.insert(
            path,
            disk.files[path] + records(entries),
        ));
    }
}

/// No record is lost across a rotation. Where the calls `before` find the
/// file below the threshold, the call `trigger` then finds it full, and the
/// calls `after` find the new file below the threshold again, the archive
/// made for `trigger` holds the former content followed by the records of
/// `before`, and the log file holds the record of `trigger` followed by the
/// records of `after`: every record once, whole, in the order of the calls,
/// and that of `trigger` in the new file only. No other file changes.
pub proof fn no_loss_across_one_rotation(
    target: Target,
    disk: Disk,
    before: Seq<Entry>,
    trigger: Entry,
    after: Seq<Entry>,
)
    requires
        disk.serves(target.path),
        !disk.files.contains_key(archive_name(target.path, trigger.now)),
        quiet(target, disk, before),
        is_full(target, logged_all(target, disk, before).size(target.path)),
        quiet(target, logged_all(target, disk, before + seq![trigger]), after),
    ensures
        feasible(target, disk, before + seq![trigger] + after),
        archive_name(target.path, trigger.now) != target.path,
        logged_all(target, disk, before + seq![trigger] + after).serves(target.path),
        logged_all(target, disk, before + seq![trigger] + after).files == disk.files.insert(
            archive_name(target.path, trigger.now),
            disk.files[target.path] + records(before),
        ).insert(target.path, trigger.bytes() + records(after)),
{
    let path = target.path;
    let archive = archive_name(path, trigger.now);
    let full = logged_all(target, disk, before);
    let fresh = logged(target, full, trigger);
    let one = seq![trigger];
    archive_name_is_not_path(path, trigger.now);
    quiet_calls_append(target, disk, before);
    write_at_threshold(target, full, trigger);
    history_of_one(target, full, trigger);
    history_of_concat(target, disk, before, one);
    quiet_calls_append(target, fresh, after);
    history_of_concat(target, disk, before + one, after);
    assert(logged_all(target, disk, before + one + after).files =~= disk.files.insert(
        archive,
        disk.files[path] + records(before),
    ).insert(path, trigger.bytes() + records(after)));
}

/// The archives made at `times` read the same on two disks that agree on
/// each of them.
proof fn archived_on_equal_files(path: Seq<char>, a: Disk, b: Disk, times: Seq<u64>)
    requires
        forall|i: int|
            0 <= i < times.len() ==> a.files[archive_name(path, #[trigger] times[i])]
                == b.files[archive_name(path, times[i])],
    ensures
        archived(path, a, times) == archived(path, b, times),
    decreases times.len(),
{
    if times.len() > 0 {
        let init = times.drop_last();
        assert forall|i: int| 0 <= i < init.len() implies a.files[archive_name(
            path,
            #[trigger] init[i],
        )] == b.files[archive_name(path, init[i])] by {
            assert(init[i] == times[i]);
        }
        archived_on_equal_files(path, a, b, init);
        assert(times.last() == times[times.len() - 1]);
    }
}

/// No record is lost, however often the file is rotated. After a history
/// that the files allow, the archives it made, in the order of their
/// making, followed by the log file, hold the former content of the log
/// file followed by the record of every call: each once, whole, and in the
/// order of the calls. Every archive it made is on the disk, and so is
/// every file that was there before.
pub proof fn no_loss_across_rotations(target: Target, disk: Disk, entries: Seq<Entry>)
    requires
        disk.serves(target.path),
        feasible(target, disk, entries),
    ensures
        logged_all(target, disk, entries).serves(target.path),
        archived(
            target.path,
            logged_all(target, disk, entries),
            rotation_times(target, disk, entries),
        ) + logged_all(target, disk, entries).files[target.path] == disk.files[target.path]
            + records(entries),
        forall|i: int|
            0 <= i < rotation_times(target, disk, entries).len() ==> logged_all(
                target,
                disk,
                entries,
            ).files.contains_key(
                archive_name(target.path, #[trigger] rotation_times(target, disk, entries)[i]),
            ),
        forall|name: Seq<char>| #[trigger]
            disk.files.contains_key(name) ==> logged_all(target, disk, entries).files.contains_key(
                name,
            ),
    decreases entries.len(),
{
    let path = target.path;
    let end = logged_all(target, disk, entries);
    let times = rotation_times(target, disk, entries);
    if entries.len() == 0 {
        assert(archived(path, end, times) + end.files[path] =~= disk.files[path] + records(
            entries,
        ));
    } else {
        let init = entries.drop_last();
        let last = entries.last();
        let mid = logged_all(target, disk, init);
        let earlier = rotation_times(target, disk, init);
        assert(entries =~= init + seq![last]);
        history_of_concat(target, disk, init, seq![last]);
        history_of_one(target, mid, last);
        no_loss_across_rotations(target, disk, init);
        assert(end == logged(target, mid, last));
        if is_full(target, mid.size(path)) {
            let archive = archive_name(path, last.now);
            feasible_rotation_finds_name_free(target, mid, last);
            write_at_threshold(target, mid, last);
            assert(times =~= earlier + seq![last.now]);
            assert(times.drop_last() =~= earlier);
            assert(times.last() == last.now);
            assert forall|i: int| 0 <= i < earlier.len() implies end.files[archive_name(
                path,
                #[trigger] earlier[i],
            )] == mid.files[archive_name(path, earlier[i])] by {
                archive_name_is_not_path(path, earlier[i]);
                assert(mid.files.contains_key(archive_name(path, earlier[i])));
            }
            archived_on_equal_files(path, end, mid, earlier);
            assert(archived(path, end, times) == archived(path, mid, earlier) + mid.files[path]);
            assert((disk.files[path] + records(init)) + last.bytes() =~= disk.files[path] + (
                records(init) + last.bytes()));
            assert forall|i: int| 0 <= i < times.len() implies end.files.contains_key(
                archive_name(path, #[trigger] times[i]),
            ) by {
                if i < earlier.len() {
                    assert(times[i] == earlier[i]);
                }
            }
        } else {
            write_below_threshold(target, mid, last);
            assert(times =~= earlier);
            assert forall|i: int| 0 <= i < earlier.len() implies end.files[archive_name(
                path,
                #[trigger] earlier[i],
            )] == mid.files[archive_name(path, earlier[i])] by {
                archive_name_is_not_path(path, earlier[i]);
            }
            archived_on_equal_files(path, end, mid, earlier);
            let kept = archived(path, mid, earlier);
            assert(end.files[path] == mid.files[path] + last.bytes());
            assert(kept + (mid.files[path] + last.bytes()) =~= (kept + mid.files[path])
                + last.bytes());
            assert((disk.files[path] + records(init)) + last.bytes() =~= disk.files[path] + (
                records(init) + last.bytes()));
        }
    }
}

/// After a reconfiguration that succeeded, a logging call goes by the new
/// path and the new threshold together, whatever the slot held before.
pub proof fn reconfigured_calls_use_new_target(
    slot: Option<Target>,
    target: Target,
    level: LogLevel,
    msg: Seq<char>,
    size: nat,
    now: u64,
)
    ensures
        slot_ops(after_attempt(slot, target, true), level, msg, size, now) == log_ops(
            target,
            level,
            msg,
            size,
            now,
        ),
{
}

/// After a reconfiguration that failed, a logging call asks for what it
/// would have asked for without it.
pub proof fn failed_reconfiguration_changes_nothing(
    slot: Option<Target>,
    target: Target,
    level: LogLevel,
    msg: Seq<char>,
    size: nat,
    now: u64,
)
    ensures
        slot_ops(after_attempt(slot, target, false), level, msg, size, now) == slot_ops(
            slot,
            level,
            msg,
            size,
            now,
        ),
{
}

} // verus!
