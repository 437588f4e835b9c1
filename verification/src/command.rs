//! The textual command keywords and their parser.

use crate::strutil::str_eq;
use vstd::prelude::*;

verus! {

/// A tracker command named on a command line.
#[derive(Clone, Copy, Debug, PartialEq, Eq, Structural)]
pub enum ManagerCommand {
    StartTrack,
    EndTrack,
    PauseTrack,
    Error,
}

/// The whitespace the command parser strips: blanks, tabs and line ends.
pub open spec fn is_space_char(c: char) -> bool {
    c == ' ' || c == '\t' || c == '\n' || c == '\r'
}

/// `s` with leading whitespace removed.
pub open spec fn trim_front(s: Seq<char>) -> Seq<char>
    decreases s.len(),
{
    if s.len() > 0 && is_space_char(s[0]) {
        trim_front(s.drop_first())
    } else {
        s
    }
}

/// `s` with trailing whitespace removed.
pub open spec fn trim_back(s: Seq<char>) -> Seq<char>
    decreases s.len(),
{
    if s.len() > 0 && is_space_char(s.last()) {
        trim_back(s.drop_last())
    } else {
        s
    }
}

/// `s` with whitespace removed from both ends.
pub open spec fn spec_trim(s: Seq<char>) -> Seq<char> {
    trim_back(trim_front(s))
}

/// The command a line names once trimmed: `start`, `end` or `out`, and
/// everything else is an error.
pub open spec fn spec_get_command(s: Seq<char>) -> ManagerCommand {
    if spec_trim(s) == "start"@ {
        ManagerCommand::StartTrack
    } else if spec_trim(s) == "end"@ {
        ManagerCommand::EndTrack
    } else if spec_trim(s) == "out"@ {
        ManagerCommand::PauseTrack
    } else {
        ManagerCommand::Error
    }
}

fn is_space(c: char) -> (r: bool)
    ensures
        r == is_space_char(c),
{
    c == ' ' || c == '\t' || c == '\n' || c == '\r'
}

proof fn lemma_trim_front_subrange(s: Seq<char>, lo: int)
    requires
        0 <= lo <= s.len(),
        forall|k: int| 0 <= k < lo ==> is_space_char(s[k]),
        lo == s.len() || !is_space_char(s[lo]),
    ensures
        trim_front(s) == s.subrange(lo, s.len() as int),
    decreases lo,
{
    if lo == 0 {
        assert(s.subrange(0, s.len() as int) =~= s);
    } else {
        lemma_trim_front_subrange(s.drop_first(), lo - 1);
        assert(s.drop_first().subrange(lo - 1, s.drop_first().len() as int) =~= s.subrange(
            lo,
            s.len() as int,
        ));
    }
}

proof fn lemma_trim_back_subrange(s: Seq<char>, hi: int)
    requires
        0 <= hi <= s.len(),
        forall|k: int| hi <= k < s.len() ==> is_space_char(s[k]),
        hi == 0 || !is_space_char(s[hi - 1]),
    ensures
        trim_back(s) == s.subrange(0, hi),
    decreases s.len() - hi,
{
    if hi == s.len() {
        assert(s.subrange(0, s.len() as int) =~= s);
    } else {
        lemma_trim_back_subrange(s.drop_last(), hi);
        assert(s.drop_last().subrange(0, hi) =~= s.subrange(0, hi));
    }
}

/// Parses a command line into the command it names.
pub fn get_command(command: &str) -> (r: ManagerCommand)
    ensures
        r == spec_get_command(command@),
{
    let n = command.unicode_len();
    let mut lo: usize = 0;
    while lo < n && is_space(command.get_char(lo))
        invariant
            n == command@.len(),
            lo <= n,
            forall|k: int| 0 <= k < lo ==> is_space_char(command@[k]),
        decreases n - lo,
    {
        lo += 1;
    }
    let mut hi: usize = n;
    while hi > lo && is_space(command.get_char(hi - 1))
        invariant
            n == command@.len(),
            lo <= hi <= n,
            forall|k: int| hi <= k < n ==> is_space_char(command@[k]),
        decreases hi,
    {
        hi -= 1;
    }
    let trimmed = command.substring_char(lo, hi);
    proof {
        lemma_trim_front_subrange(command@, lo as int);
        let t = command@.subrange(lo as int, n as int);
        lemma_trim_back_subrange(t, hi - lo);
        assert(t.subrange(0, hi - lo) =~= command@.subrange(lo as int, hi as int));
        assert(spec_trim(command@) == trimmed@);
    }
    if str_eq(trimmed, "start") {
        ManagerCommand::StartTrack
    } else if str_eq(trimmed, "end") {
        ManagerCommand::EndTrack
    } else if str_eq(trimmed, "out") {
        ManagerCommand::PauseTrack
    } else {
        ManagerCommand::Error
    }
}

} // verus!
