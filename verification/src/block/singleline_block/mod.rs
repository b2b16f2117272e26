//! Blocks that take exactly one line: headings and comments.

pub mod closed_heading;
pub mod comment;
pub mod open_heading;

use vstd::prelude::*;
use crate::span::{spans_view, Span, SpanModel};
use crate::utils::{line_content, line_rest};
use closed_heading::{closed_heading, closed_heading_of, closed_heading_parts};
use comment::{begins_with_comment, comment, comment_of};
use open_heading::{open_heading, open_heading_of, open_heading_parts};

verus! {

/// A block of one line.
#[derive(Debug, PartialEq, Eq)]
pub enum SinglelineBlock {
    OpenHeading(Vec<Span>, HeadingLevel),
    ClosedHeading(Vec<Span>, HeadingLevel),
    Comment(String),
}

/// The depth of a heading, from one to six.
#[derive(Debug, PartialEq, Eq, Clone, Copy, Structural)]
pub enum HeadingLevel {
    One,
    Two,
    Three,
    Four,
    Five,
    Six,
}

/// What a `SinglelineBlock` holds, as a mathematical value.
pub enum SinglelineBlockModel {
    OpenHeading(Seq<SpanModel>, HeadingLevel),
    ClosedHeading(Seq<SpanModel>, HeadingLevel),
    Comment(Seq<char>),
}

impl SinglelineBlock {
    pub open spec fn view(&self) -> SinglelineBlockModel {
        match self {
            SinglelineBlock::OpenHeading(spans, level) => SinglelineBlockModel::OpenHeading(
                spans_view(spans@),
                *level,
            ),
            SinglelineBlock::ClosedHeading(spans, level) => SinglelineBlockModel::ClosedHeading(
                spans_view(spans@),
                *level,
            ),
            SinglelineBlock::Comment(text) => SinglelineBlockModel::Comment(text@),
        }
    }
}

impl HeadingLevel {
    /// The number of the level, from 1 to 6.
    pub open spec fn number(&self) -> int {
        match self {
            HeadingLevel::One => 1,
            HeadingLevel::Two => 2,
            HeadingLevel::Three => 3,
            HeadingLevel::Four => 4,
            HeadingLevel::Five => 5,
            HeadingLevel::Six => 6,
        }
    }

    /// The level with the given number.
    pub open spec fn of_number(n: int) -> HeadingLevel {
        if n <= 1 {
            HeadingLevel::One
        } else if n == 2 {
            HeadingLevel::Two
        } else if n == 3 {
            HeadingLevel::Three
        } else if n == 4 {
            HeadingLevel::Four
        } else if n == 5 {
            HeadingLevel::Five
        } else {
            HeadingLevel::Six
        }
    }

    /// The level with the given number.
    pub fn from(source: usize) -> (level: HeadingLevel)
        requires
            1 <= source <= 6,
        ensures
            level == HeadingLevel::of_number(source as int),
            level.number() == source,
    {
        if source == 1 {
            HeadingLevel::One
        } else if source == 2 {
            HeadingLevel::Two
        } else if source == 3 {
            HeadingLevel::Three
        } else if source == 4 {
            HeadingLevel::Four
        } else if source == 5 {
            HeadingLevel::Five
        } else {
            HeadingLevel::Six
        }
    }
}

/// `n` equal signs.
pub open spec fn equal_signs(n: int) -> Seq<char> {
    Seq::new(n as nat, |i: int| '=')
}

/// The number of equal signs that `line` holds from position `i` on without a gap,
/// added to `i` and counted up to six.
pub open spec fn heading_marks(line: Seq<char>, i: int) -> int
    decreases 6 - i,
{
    if 0 <= i < 6 && i < line.len() && line[i] == '=' {
        heading_marks(line, i + 1)
    } else {
        i
    }
}

/// The count stops at six, inside the line, and counts equal signs only.
pub proof fn lemma_heading_marks(line: Seq<char>, i: int)
    requires
        0 <= i <= 6,
        i <= line.len(),
    ensures
        i <= heading_marks(line, i) <= 6,
        heading_marks(line, i) <= line.len(),
        forall|j: int| i <= j < heading_marks(line, i) ==> line[j] == '=',
        heading_marks(line, i) < 6 && heading_marks(line, i) < line.len() ==> line[heading_marks(
            line,
            i,
        )] != '=',
    decreases 6 - i,
{
    if i < 6 && i < line.len() && line[i] == '=' {
        lemma_heading_marks(line, i + 1);
    }
}

/// Counts the equal signs at the start of `line`, up to six.
pub fn heading_level(line: &[char]) -> (level: usize)
    ensures
        level == heading_marks(line@, 0),
        level <= 6,
        level <= line@.len(),
{
    let mut level: usize = 0;
    while level < 6 && level < line.len() && line[level] == '='
        invariant
            level <= 6,
            level <= line@.len(),
            heading_marks(line@, level as int) == heading_marks(line@, 0),
        decreases 6 - level,
    {
        level = level + 1;
    }
    level
}

/// Tells whether `line` holds nothing but equal signs from position `from` on.
pub(crate) fn ends_with_marks(line: &[char], from: usize) -> (b: bool)
    requires
        from <= line@.len(),
    ensures
        b == (line@.skip(from as int) == equal_signs(line@.len() - from)),
{
    let mut i: usize = from;
    while i < line.len()
        invariant
            from <= i <= line@.len(),
            forall|j: int| from <= j < i ==> line@[j] == '=',
        decreases line@.len() - i,
    {
        if line[i] != '=' {
            proof {
                if line@.skip(from as int) == equal_signs(line@.len() - from) {
                    assert(line@.skip(from as int)[i - from] == '=');
                }
            }
            return false;
        }
        i = i + 1;
    }
    assert(line@.skip(from as int) =~= equal_signs(line@.len() - from));
    true
}

/// The first line of `s` is a block of one line: an open heading, a closed heading or
/// a comment.
pub open spec fn singleline_applies(s: Seq<char>) -> bool {
    let first = line_content(s);
    ||| open_heading_parts(first) is Some
    ||| closed_heading_parts(first) is Some
    ||| begins_with_comment(first)
}

/// The block of one line that `s` begins with. The kinds are tried in a fixed order:
/// open heading, closed heading, comment.
pub open spec fn singleline_of(s: Seq<char>) -> SinglelineBlockModel {
    let first = line_content(s);
    if open_heading_parts(first) is Some {
        open_heading_of(s)
    } else if closed_heading_parts(first) is Some {
        closed_heading_of(s)
    } else {
        comment_of(s)
    }
}

/// Reads the block of one line at the start of `input`, and returns what follows the
/// line with the block. `None` where the line is neither a heading nor a comment.
pub fn singleline_block<'a>(input: &'a [char]) -> (r: Option<(&'a [char], SinglelineBlock)>)
    ensures
        match r {
            Some((rest, block)) => singleline_applies(input@) && rest@ == line_rest(input@)
                && block.view() == singleline_of(input@) && rest@.len() < input@.len(),
            None => !singleline_applies(input@),
        },
{
    match open_heading(input) {
        Some(r) => {
            return Some(r);
        },
        None => {},
    }
    match closed_heading(input) {
        Some(r) => {
            return Some(r);
        },
        None => {},
    }
    comment(input)
}

/// A line that begins with `n` equal signs and goes on with another character has
/// exactly `n` marks, for `n` up to six.
pub proof fn lemma_heading_marks_count(line: Seq<char>, n: int, i: int)
    requires
        0 <= i <= n <= 6,
        n <= line.len(),
        forall|j: int| 0 <= j < n ==> line[j] == '=',
        n < 6 && n < line.len() ==> line[n] != '=',
    ensures
        heading_marks(line, i) == n,
    decreases n - i,
{
    if i < n {
        lemma_heading_marks_count(line, n, i + 1);
    }
}

} // verus!
