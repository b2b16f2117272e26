//! Quotes: consecutive lines that begin with `>`.

use vstd::prelude::*;
use crate::block::multiline_block::{
    lemma_multiline_blocks_view_push, multiline_block, multiline_block_of, multiline_blocks_view,
    MultilineBlock, MultilineBlockModel,
};
use crate::text::{lemma_find_char, tail};
use crate::utils::{lemma_line, line, line_content, line_rest, strip_one, whitespace};

verus! {

/// `s` begins with the quote marker.
pub open spec fn begins_with_blockquote(s: Seq<char>) -> bool {
    s.len() > 0 && s[0] == '>'
}

/// What a quoted line says: the line without its marker and without one space after
/// the marker.
pub open spec fn quote_text(line: Seq<char>) -> Seq<char> {
    strip_one(line.skip(1), ' ')
}

/// What follows a quote: the text from the first line on that does not begin with the
/// marker.
pub open spec fn blockquote_rest(s: Seq<char>) -> Seq<char>
    decreases s.len(),
{
    if begins_with_blockquote(s) {
        proof {
            lemma_line(s);
        }
        blockquote_rest(line_rest(s))
    } else {
        s
    }
}

/// What follows a quote is shorter than the quote's text.
pub proof fn lemma_blockquote_rest(s: Seq<char>)
    ensures
        blockquote_rest(s).len() <= s.len(),
        begins_with_blockquote(s) ==> blockquote_rest(s).len() < s.len(),
    decreases s.len(),
{
    if begins_with_blockquote(s) {
        lemma_line(s);
        lemma_blockquote_rest(line_rest(s));
    }
}

/// Tells whether `input` begins with the quote marker.
pub fn starts_with_blockquote(input: &[char]) -> (b: bool)
    ensures
        b == begins_with_blockquote(input@),
{
    input.len() > 0 && input[0] == '>'
}

/// The blocks of a quote: one for each line that begins with the marker, read from
/// what the line says.
pub open spec fn blockquote_blocks(s: Seq<char>) -> Seq<MultilineBlockModel>
    decreases s.len(), 3int,
{
    if begins_with_blockquote(s) {
        proof {
            lemma_line(s);
            lemma_quote_text(s);
        }
        seq![multiline_block_of(quote_text(line_content(s)), false)] + blockquote_blocks(
            line_rest(s),
        )
    } else {
        Seq::empty()
    }
}

/// What a quoted line says is shorter than the quote.
pub proof fn lemma_quote_text(s: Seq<char>)
    requires
        begins_with_blockquote(s),
    ensures
        line_content(s).len() >= 1,
        line_content(s)[0] == '>',
        quote_text(line_content(s)).len() < s.len(),
{
    lemma_find_char(s, '\n', 0);
}

/// Reads the quote at the start of `input`, and returns what follows it with the
/// quote. `None` where `input` does not begin with the marker.
pub fn blockquote<'a>(input: &'a [char]) -> (r: Option<(&'a [char], MultilineBlock)>)
    ensures
        match r {
            Some((rest, block)) => begins_with_blockquote(input@) && rest@ == blockquote_rest(
                input@,
            ) && block.view() == MultilineBlockModel::Blockquote(blockquote_blocks(input@))
                && rest@.len() < input@.len(),
            None => !begins_with_blockquote(input@),
        },
    decreases input@.len(), 3int,
{
    if !starts_with_blockquote(input) {
        return None;
    }
    proof {
        lemma_blockquote_rest(input@);
    }
    let mut blocks: Vec<MultilineBlock> = Vec::new();
    let mut rest = input;
    while starts_with_blockquote(rest)
        invariant
            rest@.len() <= input@.len(),
            blockquote_rest(rest@) == blockquote_rest(input@),
            multiline_blocks_view(blocks@) + blockquote_blocks(rest@) == blockquote_blocks(input@),
        decreases rest@.len(),
    {
        proof {
            lemma_line(rest@);
            lemma_quote_text(rest@);
        }
        let (next, quoted) = line(rest);
        let (_, block) = multiline_block(whitespace(tail(quoted, 1)), false);
        proof {
            lemma_multiline_blocks_view_push(blocks@, block);
        }
        blocks.push(block);
        rest = next;
    }
    Some((rest, MultilineBlock::Blockquote(blocks)))
}

} // verus!
