//! Headings written `=# text #=`.

use vstd::prelude::*;
use crate::block::singleline_block::{
    ends_with_marks, equal_signs, heading_level, heading_marks, lemma_heading_marks,
    lemma_heading_marks_count, HeadingLevel, SinglelineBlock, SinglelineBlockModel,
};
use crate::span::{parse_spans, span_list_of};
use crate::utils::{lemma_line, line, line_content, line_rest};

verus! {

/// The level and the text of a closed heading, where `line` is one: `n` equal signs
/// with `n` from one to six, `# `, the text, ` #`, and `n` equal signs again.
pub open spec fn closed_heading_parts(line: Seq<char>) -> Option<(int, Seq<char>)> {
    let level = heading_marks(line, 0);
    let n = line.len() as int;
    if 1 <= level && 2 * level + 4 <= n && line[level] == '#' && line[level + 1] == ' ' && line[n
        - level - 2] == ' ' && line[n - level - 1] == '#' && line.skip(n - level) == equal_signs(
        level,
    ) {
        Some((level, line.subrange(level + 2, n - level - 2)))
    } else {
        None
    }
}

/// The parts of a closed heading lie inside the line, and the level is from one to six.
pub proof fn lemma_closed_heading_parts(line: Seq<char>)
    ensures
        match closed_heading_parts(line) {
            Some((level, text)) => 1 <= level <= 6 && text.len() + 2 * level + 4 == line.len(),
            None => true,
        },
{
    lemma_heading_marks(line, 0);
}

/// Reads the markers of a closed heading from a line: returns the text and the level.
pub fn closed_parens<'a>(input: &'a [char]) -> (r: Option<(&'a [char], usize)>)
    ensures
        match r {
            Some((text, level)) => closed_heading_parts(input@) == Some((level as int, text@))
                && 1 <= level <= 6 && text@.len() < input@.len(),
            None => closed_heading_parts(input@) is None,
        },
{
    let level = heading_level(input);
    let n = input.len();
    if 1 <= level && 2 * level + 4 <= n && input[level] == '#' && input[level + 1] == ' '
        && input[n - level - 2] == ' ' && input[n - level - 1] == '#' && ends_with_marks(
        input,
        n - level,
    ) {
        Some((&input[level + 2..n - level - 2], level))
    } else {
        None
    }
}

/// The closed heading on the first line of `s`: the spans of its text, and its level.
pub open spec fn closed_heading_of(s: Seq<char>) -> SinglelineBlockModel {
    let (level, text) = closed_heading_parts(line_content(s))->0;
    SinglelineBlockModel::ClosedHeading(span_list_of(text), HeadingLevel::of_number(level))
}

/// Reads the closed heading on the first line of `input`, and returns what follows the
/// line with the heading. `None` where the line is no closed heading.
pub fn closed_heading<'a>(input: &'a [char]) -> (r: Option<(&'a [char], SinglelineBlock)>)
    ensures
        match r {
            Some((rest, block)) => closed_heading_parts(line_content(input@)) is Some && rest@
                == line_rest(input@) && block.view() == closed_heading_of(input@) && rest@.len()
                < input@.len(),
            None => closed_heading_parts(line_content(input@)) is None,
        },
{
    let (rest, first) = line(input);
    match closed_parens(first) {
        Some((text, level)) => {
            proof {
                lemma_line(input@);
            }
            Some(
                (rest, SinglelineBlock::ClosedHeading(parse_spans(text), HeadingLevel::from(level))),
            )
        },
        None => None,
    }
}

/// The line that writes a closed heading: `n` equal signs, `# `, the text, ` #`, and
/// `n` equal signs.
pub open spec fn closed_heading_line(n: int, text: Seq<char>) -> Seq<char> {
    equal_signs(n) + seq!['#', ' '] + text + seq![' ', '#'] + equal_signs(n)
}

/// With one to six equal signs on each side, a line is a closed heading of exactly
/// that level, around exactly that text, whatever the text holds.
pub proof fn lemma_closed_heading_level(n: int, text: Seq<char>)
    requires
        1 <= n <= 6,
    ensures
        closed_heading_parts(closed_heading_line(n, text)) == Some((n, text)),
{
    let line = closed_heading_line(n, text);
    lemma_heading_marks_count(line, n, 0);
    assert(line.skip(line.len() - n) =~= equal_signs(n));
}

/// A line that begins with seven or more equal signs is no closed heading.
pub proof fn lemma_closed_heading_level_bound(line: Seq<char>)
    requires
        line.len() >= 7,
        forall|i: int| 0 <= i < 7 ==> line[i] == '=',
    ensures
        closed_heading_parts(line) is None,
{
    lemma_heading_marks_count(line, 6, 0);
}

/// A line that begins with no equal sign is no closed heading.
pub proof fn lemma_closed_heading_needs_mark(line: Seq<char>)
    requires
        line.len() == 0 || line[0] != '=',
    ensures
        closed_heading_parts(line) is None,
{
}

} // verus!
