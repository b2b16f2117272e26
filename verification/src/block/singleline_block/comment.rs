//! Comments: lines that begin with `##`.

use vstd::prelude::*;
use crate::block::singleline_block::{SinglelineBlock, SinglelineBlockModel};
use crate::text::{matches_at, starts_with, string_of, tail};
use crate::utils::{lemma_line, line, line_content, line_rest};

verus! {

/// `s` begins with the comment marker.
pub open spec fn begins_with_comment(s: Seq<char>) -> bool {
    starts_with(s, "##"@)
}

/// Tells whether `input` begins with the comment marker.
pub fn starts_with_comment(input: &[char]) -> (b: bool)
    ensures
        b == begins_with_comment(input@),
{
    matches_at(input, 0, "##")
}

/// The comment on the first line of `s`: the line without its marker, kept as it is.
pub open spec fn comment_of(s: Seq<char>) -> SinglelineBlockModel {
    SinglelineBlockModel::Comment(line_content(s).skip("##"@.len() as int))
}

/// Reads the comment on the first line of `input`, and returns what follows the line
/// with the comment. `None` where the line does not begin with the marker.
pub fn comment<'a>(input: &'a [char]) -> (r: Option<(&'a [char], SinglelineBlock)>)
    ensures
        match r {
            Some((rest, block)) => begins_with_comment(line_content(input@)) && rest@
                == line_rest(input@) && block.view() == comment_of(input@) && rest@.len()
                < input@.len(),
            None => !begins_with_comment(line_content(input@)),
        },
{
    proof {
        reveal_strlit("##");
    }
    let (rest, first) = line(input);
    if starts_with_comment(first) {
        proof {
            lemma_line(input@);
        }
        Some((rest, SinglelineBlock::Comment(string_of(tail(first, 2)))))
    } else {
        None
    }
}

} // verus!
