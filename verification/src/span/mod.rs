//! Inline content: the span type and the list of spans that a text parses into.

pub mod bracket_span;
pub mod command_span;
pub mod inline;
pub mod macro_span;
pub mod semantic_span;

use vstd::prelude::*;
use crate::text::{chars_of, string_of};
use bracket_span::{bracket_len, bracket_of, bracket_span, lemma_bracket_len};
use command_span::{command_len, command_of, command_span, lemma_command_len};
use inline::{inline_end, lemma_inline_end_progress};
use macro_span::{lemma_macro_len, macro_content, macro_len, macro_of, macro_span};
use semantic_span::{lemma_semantic_match, semantic_len, semantic_of, semantic_span};
pub use bracket_span::{BracketSpan, BracketSpanModel};
pub use command_span::{
    CommandSpan, CommandSpanModel, ImageOption, ImageOptionModel, VideoOption, VideoOptionModel,
    VideoPlatform,
};
pub use macro_span::{MacroSpan, MacroSpanModel, RubyOption, RubyOptionModel};
pub use semantic_span::{SemanticSpan, SemanticSpanModel};

verus! {

/// An inline unit.
#[derive(Debug, PartialEq, Eq)]
pub enum Span {
    Semantic(SemanticSpan),
    Bracket(BracketSpan),
    Macro(MacroSpan),
    Command(CommandSpan),
    Inline(String),
}

/// What a `Span` holds, as a mathematical value.
pub enum SpanModel {
    Semantic(SemanticSpanModel),
    Bracket(BracketSpanModel),
    Macro(MacroSpanModel),
    Command(CommandSpanModel),
    Inline(Seq<char>),
}

impl Span {
    pub open spec fn view(&self) -> SpanModel
        decreases self,
    {
        match self {
            Span::Semantic(span) => SpanModel::Semantic(span.view()),
            Span::Bracket(span) => SpanModel::Bracket(span.view()),
            Span::Macro(span) => SpanModel::Macro(span.view()),
            Span::Command(span) => SpanModel::Command(span.view()),
            Span::Inline(text) => SpanModel::Inline(text@),
        }
    }
}

/// The values of a sequence of spans, in order.
pub open spec fn spans_view(spans: Seq<Span>) -> Seq<SpanModel>
    decreases spans,
{
    if spans.len() == 0 {
        Seq::empty()
    } else {
        spans_view(spans.drop_last()).push(spans.last().view())
    }
}

/// Appending a span appends its value.
pub proof fn lemma_spans_view_push(spans: Seq<Span>, span: Span)
    ensures
        spans_view(spans.push(span)) == spans_view(spans).push(span.view()),
{
    assert(spans.push(span).drop_last() =~= spans);
}

/// How many characters the first span of `s` takes. The kinds of span are tried in a
/// fixed order: semantic, bracket, command, macro; where none starts, the plain text up
/// to the next semantic or bracket span.
pub open spec fn span_len(s: Seq<char>) -> int {
    match semantic_len(s) {
        Some(n) => n,
        None => match bracket_len(s) {
            Some(n) => n,
            None => match command_len(s) {
                Some(n) => n,
                None => match macro_len(s) {
                    Some(n) => n,
                    None => inline_end(s, 0),
                },
            },
        },
    }
}

/// The first span of a text that is not empty takes at least one character, and no
/// more than the text holds.
pub proof fn lemma_span_len(s: Seq<char>)
    ensures
        0 <= span_len(s) <= s.len(),
        s.len() > 0 ==> 1 <= span_len(s),
{
    lemma_semantic_match(s);
    lemma_bracket_len(s);
    lemma_command_len(s);
    lemma_macro_len(s);
    if s.len() > 0 && semantic_len(s) is None && bracket_len(s) is None {
        lemma_inline_end_progress(s);
    }
}

/// The first span of `s`.
pub open spec fn span_of(s: Seq<char>) -> SpanModel
    decreases s.len(), 1int,
{
    if semantic_len(s) is Some {
        SpanModel::Semantic(semantic_of(s))
    } else {
        match bracket_len(s) {
            Some(n) => {
                proof {
                    lemma_bracket_len(s);
                }
                SpanModel::Bracket(bracket_of(s.subrange(3, n - 3)))
            },
            None => match command_len(s) {
                Some(n) => {
                    proof {
                        lemma_command_len(s);
                    }
                    SpanModel::Command(command_of(s.subrange(2, n - 2)))
                },
                None => match macro_content(s) {
                    Some(c) => {
                        proof {
                            lemma_macro_len(s);
                        }
                        SpanModel::Macro(macro_of(c)->0)
                    },
                    None => SpanModel::Inline(s.take(inline_end(s, 0))),
                },
            },
        }
    }
}

/// The spans that `s` parses into: its first span, then the spans of what follows.
pub open spec fn span_list_of(s: Seq<char>) -> Seq<SpanModel>
    decreases s.len(), 2int,
{
    if s.len() == 0 {
        Seq::empty()
    } else {
        proof {
            lemma_span_len(s);
        }
        seq![span_of(s)] + span_list_of(s.skip(span_len(s)))
    }
}

/// Reads the first span of `input`, and returns what follows it with the span.
pub fn span<'a>(input: &'a [char]) -> (r: (&'a [char], Span))
    ensures
        r.0@ == input@.skip(span_len(input@)),
        r.1.view() == span_of(input@),
        r.0@.len() <= input@.len(),
        input@.len() > 0 ==> r.0@.len() < input@.len(),
    decreases input@.len(), 1int,
{
    proof {
        lemma_span_len(input@);
    }
    match semantic_span(input) {
        Some((rest, span)) => {
            return (rest, Span::Semantic(span));
        },
        None => {},
    }
    match bracket_span(input) {
        Some((rest, span)) => {
            return (rest, Span::Bracket(span));
        },
        None => {},
    }
    match command_span(input) {
        Some((rest, span)) => {
            return (rest, Span::Command(span));
        },
        None => {},
    }
    match macro_span(input) {
        Some((rest, span)) => {
            return (rest, Span::Macro(span));
        },
        None => {},
    }
    let (rest, text) = crate::span::inline::inline(input);
    (rest, Span::Inline(string_of(text)))
}

/// Reads the spans of `input`.
pub fn parse_spans(input: &[char]) -> (spans: Vec<Span>)
    ensures
        spans_view(spans@) == span_list_of(input@),
    decreases input@.len(), 2int,
{
    let mut list: Vec<Span> = Vec::new();
    let mut rest = input;
    while rest.len() > 0
        invariant
            rest@.len() <= input@.len(),
            spans_view(list@) + span_list_of(rest@) == span_list_of(input@),
        decreases rest@.len(),
    {
        let (next, span) = span(rest);
        proof {
            lemma_spans_view_push(list@, span);
        }
        list.push(span);
        rest = next;
    }
    list
}

/// Parses a text into its spans.
pub fn span_list(input: &str) -> (spans: Vec<Span>)
    ensures
        spans_view(spans@) == span_list_of(input@),
{
    let chars = chars_of(input);
    parse_spans(chars.as_slice())
}

} // verus!
