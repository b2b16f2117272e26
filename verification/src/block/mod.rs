//! Structural content: the block type and the list of blocks that a document parses
//! into.

pub mod multiline_block;
pub mod singleline_block;

use vstd::prelude::*;
use crate::span::span_list_of;
use crate::text::{chars_of, lemma_find_char};
use crate::utils::{lemma_line, lemma_single_line, line_content, line_rest};
use multiline_block::horizontal_rule::{blanks, dashes};
use multiline_block::list::lemma_list_needs_marker;
use multiline_block::paragraph::paragraph_text;
use multiline_block::{
    indented, lemma_indented_rule, lemma_multiline_rest, multiline_block, multiline_block_of,
    multiline_rest,
};
use singleline_block::closed_heading::{
    closed_heading_line, lemma_closed_heading_level, lemma_closed_heading_level_bound,
};
use singleline_block::comment::begins_with_comment;
use singleline_block::open_heading::{
    lemma_open_heading_level, lemma_open_heading_level_bound, open_heading_line,
};
use singleline_block::{singleline_applies, singleline_block, singleline_of};
pub use multiline_block::{
    ListIndex, ListIndexModel, ListItem, ListItemModel, MultilineBlock, MultilineBlockModel,
};
pub use singleline_block::{HeadingLevel, SinglelineBlock, SinglelineBlockModel};

verus! {

/// A structural unit of a document.
#[derive(Debug, PartialEq, Eq)]
pub enum Block {
    Singleline(SinglelineBlock),
    Multiline(MultilineBlock),
}

/// What a `Block` holds, as a mathematical value.
pub enum BlockModel {
    Singleline(SinglelineBlockModel),
    Multiline(MultilineBlockModel),
}

impl Block {
    pub open spec fn view(&self) -> BlockModel {
        match self {
            Block::Singleline(block) => BlockModel::Singleline(block.view()),
            Block::Multiline(block) => BlockModel::Multiline(block.view()),
        }
    }
}

/// The values of a sequence of blocks, in order.
pub open spec fn blocks_view(blocks: Seq<Block>) -> Seq<BlockModel>
    decreases blocks.len(),
{
    if blocks.len() == 0 {
        Seq::empty()
    } else {
        blocks_view(blocks.drop_last()).push(blocks.last().view())
    }
}

/// Appending a block appends its value.
pub proof fn lemma_blocks_view_push(blocks: Seq<Block>, block: Block)
    ensures
        blocks_view(blocks.push(block)) == blocks_view(blocks).push(block.view()),
{
    assert(blocks.push(block).drop_last() =~= blocks);
}

/// What follows the first block of `s`.
pub open spec fn block_rest(s: Seq<char>) -> Seq<char> {
    if singleline_applies(s) {
        line_rest(s)
    } else {
        multiline_rest(s, true)
    }
}

/// The first block of `s`: a block of one line where the first line is one, else a
/// block of one or more lines.
pub open spec fn block_of(s: Seq<char>) -> BlockModel {
    if singleline_applies(s) {
        BlockModel::Singleline(singleline_of(s))
    } else {
        BlockModel::Multiline(multiline_block_of(s, true))
    }
}

/// The first block of a text that is not empty takes at least one character.
pub proof fn lemma_block_rest(s: Seq<char>)
    ensures
        block_rest(s).len() <= s.len(),
        s.len() > 0 ==> block_rest(s).len() < s.len(),
{
    lemma_line(s);
    lemma_multiline_rest(s, true);
}

/// The blocks that the document `s` parses into: its first block, then, unless
/// nothing follows, the blocks of what follows. An empty document gives one empty
/// paragraph.
pub open spec fn block_list_of(s: Seq<char>) -> Seq<BlockModel>
    decreases s.len(),
{
    let rest = block_rest(s);
    if rest.len() == 0 {
        seq![block_of(s)]
    } else {
        proof {
            lemma_block_rest(s);
        }
        seq![block_of(s)] + block_list_of(rest)
    }
}

/// Reads the first block of `input`, and returns what follows it with the block.
pub fn block<'a>(input: &'a [char]) -> (r: (&'a [char], Block))
    ensures
        r.0@ == block_rest(input@),
        r.1.view() == block_of(input@),
        r.0@.len() <= input@.len(),
        input@.len() > 0 ==> r.0@.len() < input@.len(),
{
    match singleline_block(input) {
        Some((rest, block)) => (rest, Block::Singleline(block)),
        None => {
            let (rest, block) = multiline_block(input, true);
            (rest, Block::Multiline(block))
        },
    }
}

/// Reads the blocks of `input`.
pub fn parse_blocks(input: &[char]) -> (blocks: Vec<Block>)
    ensures
        blocks_view(blocks@) == block_list_of(input@),
        blocks@.len() > 0,
{
    let mut list: Vec<Block> = Vec::new();
    let mut rest = input;
    loop
        invariant
            rest@.len() <= input@.len(),
            blocks_view(list@) + block_list_of(rest@) == block_list_of(input@),
        decreases rest@.len(),
    {
        let (next, block) = block(rest);
        proof {
            lemma_blocks_view_push(list@, block);
        }
        list.push(block);
        if next.len() == 0 {
            return list;
        }
        rest = next;
    }
}

/// Parses a document into its blocks. Every text is a document: nothing is rejected,
/// and every document has at least one block.
pub fn block_list(input: &str) -> (blocks: Vec<Block>)
    ensures
        blocks_view(blocks@) == block_list_of(input@),
        blocks@.len() > 0,
{
    let chars = chars_of(input);
    parse_blocks(chars.as_slice())
}

/// A document that is one open heading line, with one to six equal signs on each
/// side, parses into one open heading of exactly that level around the spans of its
/// text.
pub proof fn lemma_open_heading_document(n: int, text: Seq<char>)
    requires
        1 <= n <= 6,
        forall|i: int| 0 <= i < text.len() ==> text[i] != '\n',
    ensures
        block_list_of(open_heading_line(n, text)) == seq![
            BlockModel::Singleline(
                SinglelineBlockModel::OpenHeading(span_list_of(text), HeadingLevel::of_number(n)),
            ),
        ],
        HeadingLevel::of_number(n).number() == n,
{
    let s = open_heading_line(n, text);
    lemma_single_line(s);
    lemma_open_heading_level(n, text);
}

/// A document that is one closed heading line, with one to six equal signs on each
/// side, parses into one closed heading of exactly that level around the spans of its
/// text.
pub proof fn lemma_closed_heading_document(n: int, text: Seq<char>)
    requires
        1 <= n <= 6,
        forall|i: int| 0 <= i < text.len() ==> text[i] != '\n',
    ensures
        block_list_of(closed_heading_line(n, text)) == seq![
            BlockModel::Singleline(
                SinglelineBlockModel::ClosedHeading(
                    span_list_of(text),
                    HeadingLevel::of_number(n),
                ),
            ),
        ],
        HeadingLevel::of_number(n).number() == n,
{
    let s = closed_heading_line(n, text);
    lemma_single_line(s);
    lemma_closed_heading_level(n, text);
}

/// A text that begins with seven or more equal signs begins with no heading: its
/// first block is a paragraph.
pub proof fn lemma_long_marks_are_paragraph(s: Seq<char>)
    requires
        s.len() >= 7,
        forall|i: int| 0 <= i < 7 ==> s[i] == '=',
    ensures
        block_of(s) == BlockModel::Multiline(
            MultilineBlockModel::Paragraph(span_list_of(paragraph_text(s))),
        ),
{
    reveal_strlit("##");
    let first = line_content(s);
    lemma_find_char(s, '\n', 0);
    lemma_open_heading_level_bound(first);
    lemma_closed_heading_level_bound(first);
    if begins_with_comment(first) {
        assert(first.subrange(0, 2)[0] == '#');
    }
    lemma_list_needs_marker(s);
}

/// A document of four to nine dashes after `k` spaces parses into one horizontal
/// rule inside `k` indents.
pub proof fn lemma_rule_document(k: int, n: int)
    requires
        0 <= k,
        4 <= n <= 9,
    ensures
        block_list_of(blanks(k) + dashes(n)) == seq![
            BlockModel::Multiline(indented(k, MultilineBlockModel::HorizontalRule)),
        ],
{
    reveal_strlit("##");
    let s = blanks(k) + dashes(n);
    lemma_single_line(s);
    lemma_indented_rule(k, n);
    if begins_with_comment(s) {
        assert(s.subrange(0, 2)[0] == '#');
    }
}

} // verus!
