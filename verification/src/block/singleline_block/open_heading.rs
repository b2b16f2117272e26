//! Headings written `= text =`.

use vstd::prelude::*;
use crate::block::singleline_block::{
    ends_with_marks, equal_signs, heading_level, heading_marks, lemma_heading_marks,
    lemma_heading_marks_count, HeadingLevel, SinglelineBlock, SinglelineBlockModel,
};
use crate::span::{parse_spans, span_list_of};
use crate::utils::{lemma_line, line, line_content, line_rest};

verus! {

/// The level and the text of an open heading, where `line` is one: `n` equal signs
/// with `n` from one to six, a space, the text, a space, and `n` equal signs again.
pub open spec fn open_heading_parts(line: Seq<char>) -> Option<(int, Seq<char>)> {
    let level = heading_marks(line, 0);
    if 1 <= level && 2 * level + 2 <= line.len() && line[level] == ' ' && line[line.len() - level
        - 1] == ' ' && line.skip(line.len() - level) == equal_signs(level) {
        Some((level, line.subrange(level + 1, line.len() - level - 1)))
    } else {
        None
    }
}

/// The parts of an open heading lie inside the line, and the level is from one to six.
pub proof fn lemma_open_heading_parts(line: Seq<char>)
    ensures
        match open_heading_parts(line) {
            Some((level, text)) => 1 <= level <= 6 && text.len() + 2 * level + 2 == line.len(),
            None => true,
        },
{
    lemma_heading_marks(line, 0);
}

/// Reads the markers of an open heading from a line: returns the text and the level.
pub fn parens<'a>(input: &'a [char]) -> (r: Option<(&'a [char], usize)>)
    ensures
        match r {
            Some((text, level)) => open_heading_parts(input@) == Some((level as int, text@)) && 1
                <= level <= 6 && text@.len() < input@.len(),
            None => open_heading_parts(input@) is None,
        },
{
    let level = heading_level(input);
    let n = input.len();
    if 1 <= level && 2 * level + 2 <= n && input[level] == ' ' && input[n - level - 1] == ' '
        && ends_with_marks(input, n - level) {
        Some((&input[level + 1..n - level - 1], level))
    } else {
        None
    }
}

/// Tells whether the first line of `input` is an open heading.
pub fn starts_with_open_heading(input: &[char]) -> (b: bool)
    ensures
        b == open_heading_parts(line_content(input@)).is_some(),
{
    let (_, first) = line(input);
    parens(first).is_some()
}

/// Reads the open heading on the first line of `input`, and returns what follows the
/// line with the heading. `None` where the line is no open heading.
pub fn open_heading<'a>(input: &'a [char]) -> (r: Option<(&'a [char], SinglelineBlock)>)
    ensures
        match r {
            Some((rest, block)) => open_heading_parts(line_content(input@)) is Some && rest@
                == line_rest(input@) && block.view() == open_heading_of(input@) && rest@.len()
                < input@.len(),
            None => open_heading_parts(line_content(input@)) is None,
        },
{
    let (rest, first) = line(input);
    match parens(first) {
        Some((text, level)) => {
            proof {
                lemma_line(input@);
            }
            Some((rest, SinglelineBlock::OpenHeading(parse_spans(text), HeadingLevel::from(level))))
        },
        None => None,
    }
}

/// The open heading on the first line of `s`: the spans of its text, and its level.
pub open spec fn open_heading_of(s: Seq<char>) -> SinglelineBlockModel {
    let (level, text) = open_heading_parts(line_content(s))->0;
    SinglelineBlockModel::OpenHeading(span_list_of(text), HeadingLevel::of_number(level))
}

/// The line that writes an open heading: `n` equal signs, a space, the text, a space,
/// and `n` equal signs.
pub open spec fn open_heading_line(n: int, text: Seq<char>) -> Seq<char> {
    equal_signs(n) + seq![' '] + text + seq![' '] + equal_signs(n)
}

/// With one to six equal signs on each side, a line is an open heading of exactly
/// that level, around exactly that text, whatever the text holds.
pub proof fn lemma_open_heading_level(n: int, text: Seq<char>)
    requires
        1 <= n <= 6,
    ensures
        open_heading_parts(open_heading_line(n, text)) == Some((n, text)),
{
    let line = open_heading_line(n, text);
    lemma_heading_marks_count(line, n, 0);
    assert(line.skip(line.len() - n) =~= equal_signs(n));
}

/// A line that begins with seven or more equal signs is no open heading.
pub proof fn lemma_open_heading_level_bound(line: Seq<char>)
    requires
        line.len() >= 7,
        forall|i: int| 0 <= i < 7 ==> line[i] == '=',
    ensures
        open_heading_parts(line) is None,
{
    lemma_heading_marks_count(line, 6, 0);
}

/// A line that begins with no equal sign is no open heading.
pub proof fn lemma_open_heading_needs_mark(line: Seq<char>)
    requires
        line.len() == 0 || line[0] != '=',
    ensures
        open_heading_parts(line) is None,
{
}

} // verus!
