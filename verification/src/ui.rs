//! Answers that a person types.

use vstd::prelude::*;
use vstd::string::*;

use crate::text;
use crate::text::{chars_of, lowercase_of, same, trimmed};

verus! {

/// Whether a typed line says yes.
pub open spec fn says_yes(line: Seq<char>) -> bool {
    let answer = text::lowercase(text::trim(line));
    answer == "y"@ || answer == "yes"@
}

/// Whether a typed line says yes.
pub fn confirm(line: &str) -> (r: bool)
    ensures
        r == says_yes(line@),
{
    let chars = chars_of(line);
    let answer = lowercase_of(trimmed(chars.as_slice()));
    let short = chars_of("y");
    let long = chars_of("yes");
    same(answer.as_slice(), short.as_slice()) || same(answer.as_slice(), long.as_slice())
}

/// A line says yes exactly where it is `y` or `yes`, in capitals or not, with
/// any white space round it.
pub proof fn yes_is_said_in_two_ways(before: Seq<char>, answer: Seq<char>, after: Seq<char>)
    requires
        text::blank(before),
        text::bare(answer),
        text::blank(after),
    ensures
        says_yes(before + answer + after) <==> text::lowercase(answer) == seq!['y']
            || text::lowercase(answer) == seq!['y', 'e', 's'],
        answer.len() == 0 ==> !says_yes(before + answer + after),
{
    reveal_strlit("y");
    reveal_strlit("yes");
    assert("y"@ =~= seq!['y']);
    assert("yes"@ =~= seq!['y', 'e', 's']);
    text::outer_space_is_trimmed(before, answer, after);
}

} // verus!
