//! Indents: a leading space pushes the rest of the line one level in.

use vstd::prelude::*;
use crate::block::multiline_block::{
    multiline_block_list, multiline_block_list_of, MultilineBlock, MultilineBlockModel,
};
use crate::text::{head, tail};
use crate::utils::{
    lemma_logical_line_end, linebreak, logical_line_end, logical_line_stop, strip_one,
};

verus! {

/// `s` begins with a space.
pub open spec fn begins_with_indent(s: Seq<char>) -> bool {
    s.len() > 0 && s[0] == ' '
}

/// What an indent holds: the text after its space, up to the end of the logical line.
pub open spec fn indent_text(s: Seq<char>) -> Seq<char> {
    let after = s.skip(1);
    after.take(logical_line_end(after, 0))
}

/// What follows an indent: the text after its logical line and the line feed there.
pub open spec fn indent_rest(s: Seq<char>) -> Seq<char> {
    let after = s.skip(1);
    strip_one(after.skip(logical_line_end(after, 0)), '\n')
}

/// Both parts of an indent are shorter than the text it was read from.
pub proof fn lemma_indent(s: Seq<char>)
    requires
        begins_with_indent(s),
    ensures
        indent_text(s).len() < s.len(),
        indent_rest(s).len() < s.len(),
{
    lemma_logical_line_end(s.skip(1), 0);
}

/// Splits a text that begins with a space into what follows the indent and what the
/// indent holds.
pub fn expect_indent<'a>(input: &'a [char]) -> (r: Option<(&'a [char], &'a [char])>)
    ensures
        match r {
            Some((rest, text)) => begins_with_indent(input@) && rest@ == indent_rest(input@)
                && text@ == indent_text(input@) && text@.len() < input@.len() && rest@.len()
                < input@.len(),
            None => !begins_with_indent(input@),
        },
{
    if input.len() > 0 && input[0] == ' ' {
        let after = tail(input, 1);
        let end = logical_line_stop(after, 0);
        Some((linebreak(tail(after, end)), head(after, end)))
    } else {
        None
    }
}

/// Reads the indent at the start of `input`, and returns what follows it with the
/// indent. `None` where `input` does not begin with a space.
pub fn indent<'a>(input: &'a [char]) -> (r: Option<(&'a [char], MultilineBlock)>)
    ensures
        match r {
            Some((rest, block)) => begins_with_indent(input@) && rest@ == indent_rest(input@)
                && block.view() == MultilineBlockModel::Indent(
                multiline_block_list_of(indent_text(input@)),
            ) && rest@.len() < input@.len(),
            None => !begins_with_indent(input@),
        },
    decreases input@.len(), 3int,
{
    match expect_indent(input) {
        Some((rest, text)) => Some((rest, MultilineBlock::Indent(multiline_block_list(text)))),
        None => None,
    }
}

} // verus!
