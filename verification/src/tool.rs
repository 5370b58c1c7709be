//! The outside programs that reports are taken from.
use vstd::prelude::*;
use vstd::string::*;
use crate::pieces::{lines, lines_of};
use crate::text::{chars_of, string_of, trim, trim_of, views};

verus! {

/// What a program that ran to its end left behind.
#[derive(Debug)]
pub struct ToolOutput {
    pub success: bool,
    pub stdout: String,
    pub stderr: String,
}

/// The last of the lines that is not blank.
pub open spec fn last_line(all: Seq<Seq<char>>) -> Option<Seq<char>>
    decreases all.len(),
{
    if all.len() == 0 {
        None
    } else if trim(all.last()).len() > 0 {
        Some(all.last())
    } else {
        last_line(all.drop_last())
    }
}

/// Why a program failed: the last thing it complained of.
pub open spec fn complaint(stderr: Seq<char>) -> Seq<char> {
    match last_line(lines(stderr)) {
        Some(line) => line,
        None => "unknown"@,
    }
}

pub(crate) fn complaint_of(stderr: &str) -> (s: String)
    ensures
        s@ == complaint(stderr@),
{
    let chars = chars_of(stderr);
    let all = lines_of(chars.as_slice());
    let ghost seen = views(all@);
    let mut n: usize = all.len();
    assert(seen.take(n as int) =~= seen);
    while n > 0
        invariant
            n <= all@.len(),
            seen == views(all@),
            seen == lines(stderr@),
            last_line(seen) == last_line(seen.take(n as int)),
        decreases n,
    {
        assert(seen.take(n as int).last() == all@[n - 1]@);
        assert(seen.take(n as int).drop_last() =~= seen.take(n - 1));
        if trim_of(all[n - 1]).len() > 0 {
            return string_of(all[n - 1]);
        }
        n -= 1;
    }
    "unknown".to_string()
}

/// A failure is told by the last line that is not blank, as it stands; without one it is
/// unknown.
pub proof fn law_last_line_is_the_complaint(all: Seq<Seq<char>>, k: int)
    requires
        -1 <= k < all.len(),
        k >= 0 ==> trim(all[k]).len() > 0,
        forall|j: int| k < j < all.len() ==> trim(#[trigger] all[j]).len() == 0,
    ensures
        k >= 0 ==> last_line(all) == Some(all[k]),
        k == -1 ==> last_line(all) is None,
    decreases all.len(),
{
    if all.len() > 0 && k < all.len() - 1 {
        let fewer = all.drop_last();
        assert(all.last() == all[all.len() - 1]);
        if k >= 0 {
            assert(fewer[k] == all[k]);
        }
        assert forall|j: int| k < j < fewer.len() implies trim(#[trigger] fewer[j]).len() == 0 by {
            assert(fewer[j] == all[j]);
        }
        law_last_line_is_the_complaint(fewer, k);
    }
}

} // verus!
