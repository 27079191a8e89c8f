//! The lines of the log.

use crate::mux::{is_clock_time, law_stamp_reads_back, push_stamp, stamp, LocalTime};
use vstd::prelude::*;

verus! {

/// A line of the log: when it was written, and what it says.
pub open spec fn line_words(t: LocalTime, msg: Seq<char>) -> Seq<char> {
    "["@ + stamp(t, ' ', ':') + "] "@ + msg + "\n"@
}

/// A line of the log.
pub fn log_line(t: &LocalTime, msg: &str) -> (line: String)
    ensures
        line@ == line_words(*t, msg@),
{
    let mut line = String::new();
    line.push_str("[");
    push_stamp(&mut line, t, ' ', ':');
    line.push_str("] ");
    line.push_str(msg);
    line.push_str("\n");
    assert(line@ =~= line_words(*t, msg@));
    line
}

/// A line of the log is the time of writing in brackets, with a space between date and time and
/// colons in the time, then what it says, unchanged, and a line feed.
pub proof fn law_line_says_what_and_when(t: LocalTime, msg: Seq<char>)
    requires
        is_clock_time(t),
    ensures
        ({
            let line = line_words(t, msg);
            &&& line.len() == msg.len() + 23
            &&& line[0] == '['
            &&& line.subrange(1, 20) == stamp(t, ' ', ':')
            &&& line[20] == ']'
            &&& line[21] == ' '
            &&& line.subrange(22, 22 + msg.len() as int) == msg
            &&& line.last() == '\n'
        }),
{
    law_stamp_reads_back(t, ' ', ':');
    reveal_strlit("[");
    reveal_strlit("] ");
    reveal_strlit("\n");
    let line = line_words(t, msg);
    assert(line.subrange(1, 20) =~= stamp(t, ' ', ':'));
    assert(line.subrange(22, 22 + msg.len() as int) =~= msg);
}

} // verus!
