//! Spans written as `{{{ ... }}}`.

use vstd::prelude::*;
use crate::block::multiline_block::{
    multiline_block_list, multiline_block_list_of, multiline_blocks_view, MultilineBlock,
    MultilineBlockModel,
};
use crate::span::{parse_spans, span_list_of, spans_view, Span, SpanModel};
use crate::text::{has_at, head, matches_at, starts_with, string_of, tail};
use crate::value::{hex_digit, is_hex_digit, Color, ColorModel, FontSizeLevel};

verus! {

/// What stands between `{{{` and `}}}`.
#[derive(Debug, PartialEq, Eq)]
pub enum BracketSpan {
    Color(Vec<Span>, Color),
    Folding(Vec<MultilineBlock>),
    Inline(String),
    SizeDown(Vec<Span>, FontSizeLevel),
    SizeUp(Vec<Span>, FontSizeLevel),
    SyntaxHighlight(String, String),
}

/// What a `BracketSpan` holds, as a mathematical value.
pub enum BracketSpanModel {
    Color(Seq<SpanModel>, ColorModel),
    Folding(Seq<MultilineBlockModel>),
    Inline(Seq<char>),
    SizeDown(Seq<SpanModel>, FontSizeLevel),
    SizeUp(Seq<SpanModel>, FontSizeLevel),
    SyntaxHighlight(Seq<char>, Seq<char>),
}

impl BracketSpan {
    pub open spec fn view(&self) -> BracketSpanModel
        decreases self,
    {
        match self {
            BracketSpan::Color(spans, color) => BracketSpanModel::Color(
                spans_view(spans@),
                color.view(),
            ),
            BracketSpan::Folding(blocks) => BracketSpanModel::Folding(
                multiline_blocks_view(blocks@),
            ),
            BracketSpan::Inline(text) => BracketSpanModel::Inline(text@),
            BracketSpan::SizeDown(spans, level) => BracketSpanModel::SizeDown(
                spans_view(spans@),
                *level,
            ),
            BracketSpan::SizeUp(spans, level) => BracketSpanModel::SizeUp(
                spans_view(spans@),
                *level,
            ),
            BracketSpan::SyntaxHighlight(code, language) => BracketSpanModel::SyntaxHighlight(
                code@,
                language@,
            ),
        }
    }
}

/// The position of the closer that ends a region: scanning from `i` with `depth`
/// regions open, every `{{{` opens one more and every `}}}` closes one; the closer that
/// closes the last one is the answer. `None` where the text ends first.
pub open spec fn closing_position(s: Seq<char>, i: int, depth: int) -> Option<int>
    decreases s.len() - i,
{
    proof {
        reveal_strlit("{{{");
        reveal_strlit("}}}");
    }
    if i < 0 || i >= s.len() || depth <= 0 {
        None
    } else if has_at(s, i, "{{{"@) {
        closing_position(s, i + 3, depth + 1)
    } else if has_at(s, i, "}}}"@) {
        if depth == 1 {
            Some(i)
        } else {
            closing_position(s, i + 3, depth - 1)
        }
    } else {
        closing_position(s, i + 1, depth)
    }
}

/// How many characters the bracket span at the start of `s` takes, if there is one:
/// from the opening `{{{` to the end of the `}}}` that closes it.
pub open spec fn bracket_len(s: Seq<char>) -> Option<int> {
    if has_at(s, 0, "{{{"@) {
        match closing_position(s, 3, 1) {
            Some(close) => Some(close + 3),
            None => None,
        }
    } else {
        None
    }
}

/// The closer that `closing_position` finds stands at or after `i`, inside `s`.
pub proof fn lemma_closing_position(s: Seq<char>, i: int, depth: int)
    requires
        0 <= i,
    ensures
        match closing_position(s, i, depth) {
            Some(close) => i <= close && close + 3 <= s.len() && has_at(s, close, "}}}"@),
            None => true,
        },
    decreases s.len() - i,
{
    reveal_strlit("{{{");
    reveal_strlit("}}}");
    if i >= s.len() || depth <= 0 {
    } else if has_at(s, i, "{{{"@) {
        lemma_closing_position(s, i + 3, depth + 1);
    } else if has_at(s, i, "}}}"@) {
        if depth != 1 {
            lemma_closing_position(s, i + 3, depth - 1);
        }
    } else {
        lemma_closing_position(s, i + 1, depth);
    }
}

/// A bracket span takes at least its two markers, and no more than `s` holds.
pub proof fn lemma_bracket_len(s: Seq<char>)
    ensures
        match bracket_len(s) {
            Some(n) => 6 <= n <= s.len(),
            None => true,
        },
{
    lemma_closing_position(s, 3, 1);
}

/// The length of the bracket span that `input` begins with.
pub fn bracket_length(input: &[char]) -> (r: Option<usize>)
    ensures
        match r {
            Some(n) => bracket_len(input@) == Some(n as int) && 6 <= n <= input@.len(),
            None => bracket_len(input@) is None,
        },
{
    proof {
        reveal_strlit("{{{");
        reveal_strlit("}}}");
    }
    if !matches_at(input, 0, "{{{") {
        return None;
    }
    let mut i: usize = 3;
    let mut depth: usize = 1;
    while i < input.len()
        invariant
            3 <= i,
            1 <= depth <= i,
            has_at(input@, 0, "{{{"@),
            "{{{"@.len() == 3,
            "}}}"@.len() == 3,
            closing_position(input@, i as int, depth as int) == closing_position(input@, 3, 1),
        decreases input@.len() - i,
    {
        if matches_at(input, i, "{{{") {
            depth = depth + 1;
            i = i + 3;
        } else if matches_at(input, i, "}}}") {
            if depth == 1 {
                return Some(i + 3);
            }
            depth = depth - 1;
            i = i + 3;
        } else {
            i = i + 1;
        }
    }
    None
}

/// Splits a text that begins with a closed `{{{ ... }}}` region into what follows the
/// region and the region, markers included. Any other text is handed back whole, with
/// no region.
pub fn line_with_bracket<'a>(input: &'a [char]) -> (r: (&'a [char], Option<&'a [char]>))
    ensures
        match r.1 {
            Some(region) => bracket_len(input@) is Some && region@ == input@.take(
                bracket_len(input@)->0,
            ) && r.0@ == input@.skip(bracket_len(input@)->0),
            None => bracket_len(input@) is None && r.0@ == input@,
        },
{
    match bracket_length(input) {
        Some(n) => (tail(input, n), Some(head(input, n))),
        None => (input, None),
    }
}

/// Tells whether a bracket span starts at the beginning of `input`.
pub fn starts_with_bracket_span(input: &[char]) -> (b: bool)
    ensures
        b == bracket_len(input@).is_some(),
{
    bracket_length(input).is_some()
}

/// The font-size level that a digit from `1` to `5` writes.
pub open spec fn size_level(c: char) -> Option<FontSizeLevel> {
    if c == '1' {
        Some(FontSizeLevel::One)
    } else if c == '2' {
        Some(FontSizeLevel::Two)
    } else if c == '3' {
        Some(FontSizeLevel::Three)
    } else if c == '4' {
        Some(FontSizeLevel::Four)
    } else if c == '5' {
        Some(FontSizeLevel::Five)
    } else {
        None
    }
}

/// The level of a size change that the content `c` begins with: the sign, a digit from
/// `1` to `5` and a space.
pub open spec fn sized(c: Seq<char>, sign: char) -> Option<FontSizeLevel> {
    if c.len() >= 3 && c[0] == sign && c[2] == ' ' {
        size_level(c[1])
    } else {
        None
    }
}

/// The content `c` begins with a colour: `#`, six hexadecimal digits and a space.
pub open spec fn colored(c: Seq<char>) -> bool {
    &&& c.len() >= 8
    &&& c[0] == '#'
    &&& forall|i: int| 1 <= i < 7 ==> is_hex_digit(#[trigger] c[i])
    &&& c[7] == ' '
}

/// The language that the content `c` names for syntax highlighting: `#!syntax ` and one
/// of the known languages.
pub open spec fn syntax_language(c: Seq<char>) -> Option<Seq<char>> {
    if starts_with(c, "#!syntax "@) {
        let after = c.skip("#!syntax "@.len() as int);
        if starts_with(after, "javascript"@) {
            Some("javascript"@)
        } else if starts_with(after, "rust"@) {
            Some("rust"@)
        } else {
            None
        }
    } else {
        None
    }
}

/// The bracket span that the content `c` of `{{{ ... }}}` writes. The forms are tried
/// in a fixed order: a larger size, a smaller size, a colour, a folding, highlighted
/// code; any other content is raw text.
pub open spec fn bracket_of(c: Seq<char>) -> BracketSpanModel
    decreases c.len(), 3int,
{
    proof {
        reveal_strlit("#!folding ");
    }
    if sized(c, '+') is Some {
        BracketSpanModel::SizeUp(span_list_of(c.skip(3)), sized(c, '+')->0)
    } else if sized(c, '-') is Some {
        BracketSpanModel::SizeDown(span_list_of(c.skip(3)), sized(c, '-')->0)
    } else if colored(c) {
        BracketSpanModel::Color(span_list_of(c.skip(8)), ColorModel::Raw(c.subrange(1, 7)))
    } else if starts_with(c, "#!folding "@) {
        BracketSpanModel::Folding(multiline_block_list_of(c.skip("#!folding "@.len() as int)))
    } else {
        match syntax_language(c) {
            Some(language) => BracketSpanModel::SyntaxHighlight(
                c.skip("#!syntax "@.len() + language.len() as int),
                language,
            ),
            None => BracketSpanModel::Inline(c),
        }
    }
}

/// Reads the digit of a size change.
fn level_of(c: char) -> (r: Option<FontSizeLevel>)
    ensures
        r == size_level(c),
{
    if c == '1' {
        Some(FontSizeLevel::One)
    } else if c == '2' {
        Some(FontSizeLevel::Two)
    } else if c == '3' {
        Some(FontSizeLevel::Three)
    } else if c == '4' {
        Some(FontSizeLevel::Four)
    } else if c == '5' {
        Some(FontSizeLevel::Five)
    } else {
        None
    }
}

/// Reads the sign, the level and the space of a size change.
pub fn expect_size(content: &[char], sign: char) -> (r: Option<FontSizeLevel>)
    ensures
        r == sized(content@, sign),
{
    if content.len() >= 3 && content[0] == sign && content[2] == ' ' {
        level_of(content[1])
    } else {
        None
    }
}

/// Tells whether the content begins with a colour.
pub fn expect_color(content: &[char]) -> (b: bool)
    ensures
        b == colored(content@),
{
    if content.len() < 8 || content[0] != '#' || content[7] != ' ' {
        return false;
    }
    let mut i: usize = 1;
    while i < 7
        invariant
            1 <= i <= 7,
            content@.len() >= 8,
            forall|j: int| 1 <= j < i ==> is_hex_digit(#[trigger] content@[j]),
        decreases 7 - i,
    {
        if hex_digit(content[i]).is_none() {
            return false;
        }
        i = i + 1;
    }
    true
}

/// Reads the language of highlighted code: returns the language and the code.
pub fn language<'a>(content: &'a [char]) -> (r: Option<(&'static str, &'a [char])>)
    ensures
        match r {
            Some((name, code)) => syntax_language(content@) == Some(name@) && code@
                == content@.skip("#!syntax "@.len() + name@.len() as int),
            None => syntax_language(content@) is None,
        },
{
    proof {
        reveal_strlit("#!syntax ");
        reveal_strlit("javascript");
        reveal_strlit("rust");
    }
    if !matches_at(content, 0, "#!syntax ") {
        return None;
    }
    proof {
        if content@.len() >= 19 {
            assert(content@.skip(9).subrange(0, 10) =~= content@.subrange(9, 19));
        }
        if content@.len() >= 13 {
            assert(content@.skip(9).subrange(0, 4) =~= content@.subrange(9, 13));
        }
    }
    if matches_at(content, 9, "javascript") {
        Some(("javascript", tail(content, 19)))
    } else if matches_at(content, 9, "rust") {
        Some(("rust", tail(content, 13)))
    } else {
        None
    }
}

/// Reads the content of `{{{ ... }}}`.
pub fn bracket_content(content: &[char]) -> (span: BracketSpan)
    ensures
        span.view() == bracket_of(content@),
    decreases content@.len(), 3int,
{
    proof {
        reveal_strlit("#!folding ");
    }
    match expect_size(content, '+') {
        Some(level) => {
            return BracketSpan::SizeUp(parse_spans(tail(content, 3)), level);
        },
        None => {},
    }
    match expect_size(content, '-') {
        Some(level) => {
            return BracketSpan::SizeDown(parse_spans(tail(content, 3)), level);
        },
        None => {},
    }
    if expect_color(content) {
        let code = string_of(&content[1..7]);
        return BracketSpan::Color(parse_spans(tail(content, 8)), Color::Raw(code));
    }
    if matches_at(content, 0, "#!folding ") {
        return BracketSpan::Folding(multiline_block_list(tail(content, 10)));
    }
    match language(content) {
        Some((name, code)) => BracketSpan::SyntaxHighlight(
            string_of(code),
            String::from_str(name),
        ),
        None => BracketSpan::Inline(string_of(content)),
    }
}

/// Reads the bracket span at the start of `input`, and returns what follows it with
/// the span. `None` where no closed `{{{ ... }}}` region starts there.
pub fn bracket_span<'a>(input: &'a [char]) -> (r: Option<(&'a [char], BracketSpan)>)
    ensures
        match r {
            Some((rest, span)) => bracket_len(input@) is Some && rest@ == input@.skip(
                bracket_len(input@)->0,
            ) && span.view() == bracket_of(input@.subrange(3, bracket_len(input@)->0 - 3))
                && rest@.len() < input@.len(),
            None => bracket_len(input@) is None,
        },
    decreases input@.len(), 0int,
{
    match bracket_length(input) {
        Some(n) => Some((tail(input, n), bracket_content(&input[3..n - 3]))),
        None => None,
    }
}

} // verus!
