//! Paragraphs: whatever no other block takes.

use vstd::prelude::*;
use crate::block::multiline_block::blockquote::{begins_with_blockquote, starts_with_blockquote};
use crate::block::multiline_block::horizontal_rule::{is_rule_line, starts_with_horizontal_rule};
use crate::block::multiline_block::list::{list_kind, starts_with_list};
use crate::block::multiline_block::{MultilineBlock, MultilineBlockModel};
use crate::block::singleline_block::comment::{begins_with_comment, starts_with_comment};
use crate::span::{parse_spans, span_list_of};
use crate::block::singleline_block::open_heading::{open_heading_parts, starts_with_open_heading};
use crate::text::{head, tail};
use crate::utils::{
    lemma_logical_line_end, line_content, linebreak, logical_line_end, logical_line_stop, strip_one,
    whitespace,
};

verus! {

/// A block that ends a paragraph begins `s`: a quote, a horizontal rule, a list, a
/// comment or an open heading.
pub open spec fn begins_other_block(s: Seq<char>) -> bool {
    ||| begins_with_blockquote(s)
    ||| is_rule_line(line_content(s))
    ||| list_kind(s) is Some
    ||| begins_with_comment(s)
    ||| open_heading_parts(line_content(s)) is Some
}

/// Where the paragraph that holds position `i` ends.
///
/// From `i` on the paragraph takes whole logical lines and the line feeds between
/// them. It ends before the first of them that begins another block; its own first
/// line is never asked.
pub open spec fn paragraph_end(s: Seq<char>, i: int) -> int
    decreases s.len() - i,
{
    if i < 0 || i >= s.len() {
        s.len() as int
    } else if i > 0 && begins_other_block(s.skip(i)) {
        i
    } else if s[i] == '\n' {
        paragraph_end(s, i + 1)
    } else {
        proof {
            lemma_logical_line_end(s, i);
        }
        paragraph_end(s, logical_line_end(s, i))
    }
}

/// What a paragraph says: its lines, without one leading space.
pub open spec fn paragraph_text(s: Seq<char>) -> Seq<char> {
    strip_one(s.take(paragraph_end(s, 0)), ' ')
}

/// What follows a paragraph: the text after its last line and the line feed there.
pub open spec fn paragraph_rest(s: Seq<char>) -> Seq<char> {
    strip_one(s.skip(paragraph_end(s, 0)), '\n')
}

/// The paragraph ends at or after the position it was asked for, inside `s`.
pub proof fn lemma_paragraph_end(s: Seq<char>, i: int)
    requires
        0 <= i <= s.len(),
    ensures
        i <= paragraph_end(s, i) <= s.len(),
    decreases s.len() - i,
{
    if i >= s.len() {
    } else if i > 0 && begins_other_block(s.skip(i)) {
    } else if s[i] == '\n' {
        lemma_paragraph_end(s, i + 1);
    } else {
        lemma_logical_line_end(s, i);
        lemma_paragraph_end(s, logical_line_end(s, i));
    }
}

/// A paragraph takes at least one character of a text that is not empty, so what
/// follows it is shorter than the text.
pub proof fn lemma_paragraph(s: Seq<char>)
    ensures
        paragraph_text(s).len() <= s.len(),
        paragraph_rest(s).len() <= s.len(),
        s.len() > 0 ==> paragraph_end(s, 0) > 0 && paragraph_rest(s).len() < s.len(),
{
    if s.len() > 0 {
        if s[0] == '\n' {
            lemma_paragraph_end(s, 1);
        } else {
            lemma_logical_line_end(s, 0);
            lemma_paragraph_end(s, logical_line_end(s, 0));
        }
    }
}

/// Tells whether a block that ends a paragraph begins `input`.
pub fn starts_with_other_block(input: &[char]) -> (b: bool)
    ensures
        b == begins_other_block(input@),
{
    starts_with_blockquote(input) || starts_with_horizontal_rule(input) || starts_with_list(input)
        || starts_with_comment(input) || starts_with_open_heading(input)
}

/// Splits off the paragraph at the start of `input`: what follows it comes first, the
/// paragraph's text second.
pub fn line<'a>(input: &'a [char]) -> (r: (&'a [char], &'a [char]))
    ensures
        r.0@ == paragraph_rest(input@),
        r.1@ == paragraph_text(input@),
        r.1@.len() <= input@.len(),
        r.0@.len() <= input@.len(),
        input@.len() > 0 ==> r.0@.len() < input@.len(),
{
    let mut index: usize = 0;
    while index < input.len() && !(index > 0 && starts_with_other_block(tail(input, index)))
        invariant
            index <= input@.len(),
            paragraph_end(input@, index as int) == paragraph_end(input@, 0),
        decreases input@.len() - index,
    {
        if input[index] == '\n' {
            index = index + 1;
        } else {
            proof {
                lemma_logical_line_end(input@, index as int);
            }
            index = logical_line_stop(input, index);
        }
    }
    (linebreak(tail(input, index)), whitespace(head(input, index)))
}

/// Reads the paragraph at the start of `input`, and returns what follows it with the
/// paragraph. A paragraph is read from any text.
pub fn paragraph<'a>(input: &'a [char]) -> (r: (&'a [char], MultilineBlock))
    ensures
        r.0@ == paragraph_rest(input@),
        r.1.view() == MultilineBlockModel::Paragraph(span_list_of(paragraph_text(input@))),
        r.0@.len() <= input@.len(),
        input@.len() > 0 ==> r.0@.len() < input@.len(),
    decreases input@.len(), 3int,
{
    let (rest, text) = line(input);
    (rest, MultilineBlock::Paragraph(parse_spans(text)))
}

} // verus!
