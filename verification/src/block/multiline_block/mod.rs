//! Blocks that may take several lines: lists, indents, rules, quotes and paragraphs.

pub mod blockquote;
pub mod horizontal_rule;
pub mod indent;
pub mod list;
pub mod paragraph;

use vstd::prelude::*;
use vstd::std_specs::iter::IteratorSpec;
use crate::span::{span_list_of, spans_view, Span, SpanModel};
use crate::utils::{
    lemma_line, lemma_plain_logical_line, lemma_single_line, line_content, line_rest,
};
use blockquote::{
    begins_with_blockquote, blockquote, blockquote_blocks, blockquote_rest, lemma_blockquote_rest,
};
use horizontal_rule::{blanks, dashes, horizontal_rule, is_rule_line};
use indent::{begins_with_indent, indent, indent_rest, indent_text, lemma_indent};
use list::{lemma_list, lemma_list_needs_marker, list, list_kind, list_of, list_rest};
use paragraph::{lemma_paragraph, paragraph, paragraph_rest, paragraph_text};

verus! {

/// A block of one or more lines.
#[derive(Debug, PartialEq, Eq)]
pub enum MultilineBlock {
    Blockquote(Vec<MultilineBlock>),
    HorizontalRule,
    Indent(Vec<MultilineBlock>),
    OrderedList(Vec<ListItem>, ListIndex),
    Paragraph(Vec<Span>),
    UnorderedList(Vec<ListItem>),
}

/// How an ordered list counts, and the token it starts from.
#[derive(Debug, PartialEq, Eq)]
pub enum ListIndex {
    Numeric(String),
    HangulChosung(String),
    HangulSyllable(String),
    LowerAlphabet(String),
    UpperAlphabet(String),
    LowerArabic(String),
    UpperArabic(String),
}

/// One item of a list: the blocks of its body.
#[derive(Debug, PartialEq, Eq)]
pub struct ListItem(pub Vec<MultilineBlock>);

/// What a `MultilineBlock` holds, as a mathematical value.
pub enum MultilineBlockModel {
    Blockquote(Seq<MultilineBlockModel>),
    HorizontalRule,
    Indent(Seq<MultilineBlockModel>),
    OrderedList(Seq<ListItemModel>, ListIndexModel),
    Paragraph(Seq<SpanModel>),
    UnorderedList(Seq<ListItemModel>),
}

/// What a `ListIndex` holds, as a mathematical value.
pub enum ListIndexModel {
    Numeric(Seq<char>),
    HangulChosung(Seq<char>),
    HangulSyllable(Seq<char>),
    LowerAlphabet(Seq<char>),
    UpperAlphabet(Seq<char>),
    LowerArabic(Seq<char>),
    UpperArabic(Seq<char>),
}

/// What a `ListItem` holds, as a mathematical value.
pub struct ListItemModel(pub Seq<MultilineBlockModel>);

impl ListIndex {
    pub open spec fn view(&self) -> ListIndexModel {
        match self {
            ListIndex::Numeric(start) => ListIndexModel::Numeric(start@),
            ListIndex::HangulChosung(start) => ListIndexModel::HangulChosung(start@),
            ListIndex::HangulSyllable(start) => ListIndexModel::HangulSyllable(start@),
            ListIndex::LowerAlphabet(start) => ListIndexModel::LowerAlphabet(start@),
            ListIndex::UpperAlphabet(start) => ListIndexModel::UpperAlphabet(start@),
            ListIndex::LowerArabic(start) => ListIndexModel::LowerArabic(start@),
            ListIndex::UpperArabic(start) => ListIndexModel::UpperArabic(start@),
        }
    }
}

impl ListItem {
    pub open spec fn view(&self) -> ListItemModel
        decreases self,
    {
        ListItemModel(multiline_blocks_view(self.0@))
    }

    /// Walks the blocks of the item's body, in order.
    pub fn iter(&self) -> (it: std::slice::Iter<'_, MultilineBlock>)
        ensures
            IteratorSpec::remaining(&it) == self.0@.as_ref(),
    {
        self.0.as_slice().iter()
    }
}

impl IntoIterator for ListItem {
    type Item = MultilineBlock;

    type IntoIter = std::vec::IntoIter<MultilineBlock>;

    /// Hands out the blocks of the item's body, in order.
    fn into_iter(self) -> (it: std::vec::IntoIter<MultilineBlock>)
        ensures
            IteratorSpec::remaining(&it) == self.0@,
    {
        self.0.into_iter()
    }
}

impl MultilineBlock {
    pub open spec fn view(&self) -> MultilineBlockModel
        decreases self,
    {
        match self {
            MultilineBlock::Blockquote(blocks) => MultilineBlockModel::Blockquote(
                multiline_blocks_view(blocks@),
            ),
            MultilineBlock::HorizontalRule => MultilineBlockModel::HorizontalRule,
            MultilineBlock::Indent(blocks) => MultilineBlockModel::Indent(
                multiline_blocks_view(blocks@),
            ),
            MultilineBlock::OrderedList(items, index) => MultilineBlockModel::OrderedList(
                list_items_view(items@),
                index.view(),
            ),
            MultilineBlock::Paragraph(spans) => MultilineBlockModel::Paragraph(spans_view(spans@)),
            MultilineBlock::UnorderedList(items) => MultilineBlockModel::UnorderedList(
                list_items_view(items@),
            ),
        }
    }
}

/// The values of a sequence of blocks, in order.
pub open spec fn multiline_blocks_view(blocks: Seq<MultilineBlock>) -> Seq<MultilineBlockModel>
    decreases blocks,
{
    if blocks.len() == 0 {
        Seq::empty()
    } else {
        multiline_blocks_view(blocks.drop_last()).push(blocks.last().view())
    }
}

/// The values of a sequence of list items, in order.
pub open spec fn list_items_view(items: Seq<ListItem>) -> Seq<ListItemModel>
    decreases items,
{
    if items.len() == 0 {
        Seq::empty()
    } else {
        list_items_view(items.drop_last()).push(items.last().view())
    }
}

/// Appending a block appends its value.
pub proof fn lemma_multiline_blocks_view_push(blocks: Seq<MultilineBlock>, block: MultilineBlock)
    ensures
        multiline_blocks_view(blocks.push(block)) == multiline_blocks_view(blocks).push(
            block.view(),
        ),
{
    assert(blocks.push(block).drop_last() =~= blocks);
}

/// Appending an item appends its value.
pub proof fn lemma_list_items_view_push(items: Seq<ListItem>, item: ListItem)
    ensures
        list_items_view(items.push(item)) == list_items_view(items).push(item.view()),
{
    assert(items.push(item).drop_last() =~= items);
}

/// What follows the first block of `s`. The kinds of block are tried in a fixed order:
/// list, indent, horizontal rule, quote; a paragraph takes what is left. Inside a
/// quote no horizontal rule is read: there `with_rule` is false.
pub open spec fn multiline_rest(s: Seq<char>, with_rule: bool) -> Seq<char> {
    match list_kind(s) {
        Some(kind) => list_rest(s, kind),
        None => if begins_with_indent(s) {
            indent_rest(s)
        } else if with_rule && is_rule_line(line_content(s)) {
            line_rest(s)
        } else if begins_with_blockquote(s) {
            blockquote_rest(s)
        } else {
            paragraph_rest(s)
        },
    }
}

/// The first block of `s`.
pub open spec fn multiline_block_of(s: Seq<char>, with_rule: bool) -> MultilineBlockModel
    decreases s.len(), 4int,
{
    match list_kind(s) {
        Some(kind) => {
            list_of(s, kind)
        },
        None => if begins_with_indent(s) {
            proof {
                lemma_indent(s);
            }
            MultilineBlockModel::Indent(multiline_block_list_of(indent_text(s)))
        } else if with_rule && is_rule_line(line_content(s)) {
            MultilineBlockModel::HorizontalRule
        } else if begins_with_blockquote(s) {
            MultilineBlockModel::Blockquote(blockquote_blocks(s))
        } else {
            proof {
                lemma_paragraph(s);
            }
            MultilineBlockModel::Paragraph(span_list_of(paragraph_text(s)))
        },
    }
}

/// The first block of a text that is not empty takes at least one character.
pub proof fn lemma_multiline_rest(s: Seq<char>, with_rule: bool)
    ensures
        multiline_rest(s, with_rule).len() <= s.len(),
        s.len() > 0 ==> multiline_rest(s, with_rule).len() < s.len(),
{
    match list_kind(s) {
        Some(kind) => {
            lemma_list(s, kind);
        },
        None => {
            if begins_with_indent(s) {
                lemma_indent(s);
            } else if with_rule && is_rule_line(line_content(s)) {
                lemma_line(s);
            } else if begins_with_blockquote(s) {
                lemma_blockquote_rest(s);
            } else {
                lemma_paragraph(s);
            }
        },
    }
}

/// The blocks that `s` parses into: its first block, then, unless nothing follows,
/// the blocks of what follows. An empty text gives one empty paragraph.
pub open spec fn multiline_block_list_of(s: Seq<char>) -> Seq<MultilineBlockModel>
    decreases s.len(), 5int,
{
    let rest = multiline_rest(s, true);
    if rest.len() == 0 {
        seq![multiline_block_of(s, true)]
    } else {
        proof {
            lemma_multiline_rest(s, true);
        }
        seq![multiline_block_of(s, true)] + multiline_block_list_of(rest)
    }
}

/// Reads the first block of `input`, and returns what follows it with the block.
pub fn multiline_block<'a>(input: &'a [char], with_rule: bool) -> (r: (&'a [char], MultilineBlock))
    ensures
        r.0@ == multiline_rest(input@, with_rule),
        r.1.view() == multiline_block_of(input@, with_rule),
        r.0@.len() <= input@.len(),
        input@.len() > 0 ==> r.0@.len() < input@.len(),
    decreases input@.len(), 4int,
{
    match list(input) {
        Some(r) => {
            return r;
        },
        None => {},
    }
    match indent(input) {
        Some(r) => {
            return r;
        },
        None => {},
    }
    if with_rule {
        match horizontal_rule(input) {
            Some(r) => {
                return r;
            },
            None => {},
        }
    }
    match blockquote(input) {
        Some(r) => {
            return r;
        },
        None => {},
    }
    paragraph(input)
}

/// Reads the blocks of `input`.
pub fn multiline_block_list(input: &[char]) -> (blocks: Vec<MultilineBlock>)
    ensures
        multiline_blocks_view(blocks@) == multiline_block_list_of(input@),
    decreases input@.len(), 5int,
{
    let mut list: Vec<MultilineBlock> = Vec::new();
    let mut rest = input;
    loop
        invariant
            rest@.len() <= input@.len(),
            multiline_blocks_view(list@) + multiline_block_list_of(rest@)
                == multiline_block_list_of(input@),
        decreases rest@.len(),
    {
        let (next, block) = multiline_block(rest, true);
        proof {
            lemma_multiline_blocks_view_push(list@, block);
        }
        list.push(block);
        if next.len() == 0 {
            return list;
        }
        rest = next;
    }
}

/// `block` inside `k` indents, one in the other.
pub open spec fn indented(k: int, block: MultilineBlockModel) -> MultilineBlockModel
    decreases k,
{
    if k <= 0 {
        block
    } else {
        MultilineBlockModel::Indent(seq![indented(k - 1, block)])
    }
}

/// A line of `k` spaces and four to nine dashes is a horizontal rule inside `k`
/// indents, one for each space, and nothing follows it.
pub proof fn lemma_indented_rule(k: int, n: int)
    requires
        0 <= k,
        4 <= n <= 9,
    ensures
        multiline_block_of(blanks(k) + dashes(n), true) == indented(
            k,
            MultilineBlockModel::HorizontalRule,
        ),
        multiline_rest(blanks(k) + dashes(n), true).len() == 0,
    decreases k,
{
    let s = blanks(k) + dashes(n);
    lemma_list_needs_marker(s);
    lemma_single_line(s);
    if k > 0 {
        let after = s.skip(1);
        assert(after =~= blanks(k - 1) + dashes(n));
        lemma_plain_logical_line(after, 0);
        assert(indent_text(s) == after);
        lemma_indented_rule(k - 1, n);
    }
}

} // verus!
