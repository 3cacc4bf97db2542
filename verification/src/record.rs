//! The text of a record and the name of an archived file.

use vstd::prelude::*;
use vstd::string::StringExecFns;
use crate::decimal::{decimal, decimal_is_digits, decimal_is_injective, is_digit, push_decimal};
use crate::level::LogLevel;

verus! {

/// The line that records `msg` at `level`, written at `now` seconds since the
/// epoch: `[<now>][<LEVEL>] <msg>` and a line feed.
pub open spec fn record_text(now: u64, level: LogLevel, msg: Seq<char>) -> Seq<char> {
    seq!['['] + decimal(now as nat) + seq![']', '['] + level.label() + seq![']', ' '] + msg
        + seq!['\n']
}

/// The name under which the file at `path` is archived at `now` seconds since
/// the epoch: `<path>.<now>`.
pub open spec fn archive_name(path: Seq<char>, now: u64) -> Seq<char> {
    path + seq!['.'] + decimal(now as nat)
}

/// Formats one record.
pub fn format_record(now: u64, level: LogLevel, msg: &str) -> (line: String)
    ensures
        line@ == record_text(now, level, msg@),
{
    proof {
        reveal_strlit("[");
        reveal_strlit("][");
        reveal_strlit("] ");
        reveal_strlit("\n");
    }
    let mut line = String::new();
    line.append("[");
    push_decimal(&mut line, now);
    line.append("][");
    line.append(level.as_str());
    line.append("] ");
    line.append(msg);
    line.append("\n");
    assert("["@ =~= seq!['[']);
    assert("]["@ =~= seq![']', '[']);
    assert("] "@ =~= seq![']', ' ']);
    assert("\n"@ =~= seq!['\n']);
    assert(line@ =~= record_text(now, level, msg@));
    line
}

/// Names the archive of the file at `path`.
pub fn archive_path(path: &str, now: u64) -> (name: String)
    ensures
        name@ == archive_name(path@, now),
{
    proof {
        reveal_strlit(".");
    }
    let mut name = String::from_str(path);
    name.append(".");
    push_decimal(&mut name, now);
    assert("."@ =~= seq!['.']);
    assert(name@ =~= archive_name(path@, now));
    name
}

/// An archive never takes the name of the file it was made from: its name is
/// longer by at least two characters.
pub proof fn archive_name_is_not_path(path: Seq<char>, now: u64)
    ensures
        archive_name(path, now).len() >= path.len() + 2,
        archive_name(path, now) != path,
{
    decimal_is_digits(now as nat);
}

/// Archives of one file made at different seconds have different names.
pub proof fn archive_name_determines_time(path: Seq<char>, a: u64, b: u64)
    requires
        archive_name(path, a) == archive_name(path, b),
    ensures
        a == b,
{
    let start = path.len() + 1;
    let na = archive_name(path, a);
    let nb = archive_name(path, b);
    assert(na.subrange(start as int, na.len() as int) =~= decimal(a as nat));
    assert(nb.subrange(start as int, nb.len() as int) =~= decimal(b as nat));
    decimal_is_injective(a as nat, b as nat);
}

/// A record ends in a line feed, and holds no other unless the message does:
/// a message of one line makes a record of one line.
pub proof fn record_is_one_line(now: u64, level: LogLevel, msg: Seq<char>)
    requires
        !msg.contains('\n'),
    ensures
        record_text(now, level, msg).len() > 0,
        record_text(now, level, msg).last() == '\n',
        !record_text(now, level, msg).drop_last().contains('\n'),
{
    let text = record_text(now, level, msg);
    let stamp = decimal(now as nat);
    let label = level.label();
    decimal_is_digits(now as nat);
    assert forall|i: int| 0 <= i < text.len() - 1 implies text[i] != '\n' by {
        if i < 1 {
        } else if i < 1 + stamp.len() {
            assert(text[i] == stamp[i - 1]);
            assert(is_digit(stamp[i - 1]));
        } else if i < 3 + stamp.len() {
        } else if i < 3 + stamp.len() + label.len() {
            assert(text[i] == label[i - 3 - stamp.len()]);
        } else if i < 5 + stamp.len() + label.len() {
        } else {
            let j = i - 5 - stamp.len() - label.len();
            assert(text[i] == msg[j]);
            assert(msg.contains(msg[j]));
        }
    }
    let body = text.drop_last();
    if body.contains('\n') {
        let i = choose|i: int| 0 <= i < body.len() && body[i] == '\n';
        assert(body[i] == text[i]);
    }
}

} // verus!
