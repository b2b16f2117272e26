//! Spans that a pair of markers encloses, and the line feed.

use vstd::prelude::*;
use crate::span::{parse_spans, span_list_of, spans_view, Span, SpanModel};
use crate::text::{find_str, lemma_find_str, matches_at, position_of, starts_with, tail};

verus! {

/// Styled text, or a line feed inside a paragraph.
#[derive(Debug, PartialEq, Eq)]
pub enum SemanticSpan {
    Delete(Vec<Span>),
    Emphasis(Vec<Span>),
    Strong(Vec<Span>),
    Subscript(Vec<Span>),
    Superscript(Vec<Span>),
    Underline(Vec<Span>),
    Linebreak,
}

/// What a `SemanticSpan` holds, as a mathematical value.
pub enum SemanticSpanModel {
    Delete(Seq<SpanModel>),
    Emphasis(Seq<SpanModel>),
    Strong(Seq<SpanModel>),
    Subscript(Seq<SpanModel>),
    Superscript(Seq<SpanModel>),
    Underline(Seq<SpanModel>),
    Linebreak,
}

impl SemanticSpan {
    pub open spec fn view(&self) -> SemanticSpanModel
        decreases self,
    {
        match self {
            SemanticSpan::Delete(spans) => SemanticSpanModel::Delete(spans_view(spans@)),
            SemanticSpan::Emphasis(spans) => SemanticSpanModel::Emphasis(spans_view(spans@)),
            SemanticSpan::Strong(spans) => SemanticSpanModel::Strong(spans_view(spans@)),
            SemanticSpan::Subscript(spans) => SemanticSpanModel::Subscript(spans_view(spans@)),
            SemanticSpan::Superscript(spans) => SemanticSpanModel::Superscript(spans_view(spans@)),
            SemanticSpan::Underline(spans) => SemanticSpanModel::Underline(spans_view(spans@)),
            SemanticSpan::Linebreak => SemanticSpanModel::Linebreak,
        }
    }
}

/// The styles that a pair of markers gives.
#[derive(Debug, PartialEq, Eq, Clone, Copy, Structural)]
pub enum SemanticKind {
    Strong,
    Emphasis,
    Delete,
    Underline,
    Superscript,
    Subscript,
}

/// Where `s` begins with the marker `m` and `m` comes again later: the number of
/// characters between the opening marker and its first return.
pub open spec fn enclosed_len(s: Seq<char>, m: Seq<char>) -> Option<int> {
    if starts_with(s, m) {
        match find_str(s, m, m.len() as int) {
            Some(close) => Some(close - m.len()),
            None => None,
        }
    } else {
        None
    }
}

/// The match of one marker: the style, the marker's length and the enclosed length.
pub open spec fn marked(s: Seq<char>, m: Seq<char>, kind: SemanticKind) -> Option<
    (SemanticKind, int, int),
> {
    match enclosed_len(s, m) {
        Some(inner) => Some((kind, m.len() as int, inner)),
        None => None,
    }
}

/// The first of two matches that is there.
pub open spec fn first_of<T>(a: Option<T>, b: Option<T>) -> Option<T> {
    if a is Some {
        a
    } else {
        b
    }
}

/// The marker pair that `s` begins with, if any. The markers are tried in a fixed
/// order, so three quotes win over two, and a marker without its return is passed over.
pub open spec fn semantic_match(s: Seq<char>) -> Option<(SemanticKind, int, int)> {
    first_of(
        marked(s, "'''"@, SemanticKind::Strong),
        first_of(
            marked(s, "''"@, SemanticKind::Emphasis),
            first_of(
                marked(s, "~~"@, SemanticKind::Delete),
                first_of(
                    marked(s, "--"@, SemanticKind::Delete),
                    first_of(
                        marked(s, "__"@, SemanticKind::Underline),
                        first_of(
                            marked(s, "^^"@, SemanticKind::Superscript),
                            marked(s, ",,"@, SemanticKind::Subscript),
                        ),
                    ),
                ),
            ),
        ),
    )
}

/// `s` begins with a line feed.
pub open spec fn begins_with_linebreak(s: Seq<char>) -> bool {
    s.len() > 0 && s[0] == '\n'
}

/// How many characters the semantic span at the start of `s` takes, if there is one:
/// both markers and what they enclose, or the one line feed.
pub open spec fn semantic_len(s: Seq<char>) -> Option<int> {
    match semantic_match(s) {
        Some((_, marker, inner)) => Some(2 * marker + inner),
        None => if begins_with_linebreak(s) {
            Some(1)
        } else {
            None
        },
    }
}

/// A match of `marked` lies inside `s`, and its marker is not empty.
pub proof fn lemma_marked(s: Seq<char>, m: Seq<char>, kind: SemanticKind)
    requires
        m.len() > 0,
    ensures
        match marked(s, m, kind) {
            Some((k, marker, inner)) => k == kind && marker == m.len() && 0 <= inner && 2 * marker
                + inner <= s.len(),
            None => true,
        },
{
    lemma_find_str(s, m, m.len() as int);
}

/// A semantic match lies inside `s`, and its marker has two or three characters.
pub proof fn lemma_semantic_match(s: Seq<char>)
    ensures
        match semantic_match(s) {
            Some((_, marker, inner)) => 2 <= marker <= 3 && 0 <= inner && 2 * marker + inner
                <= s.len(),
            None => true,
        },
        match semantic_len(s) {
            Some(n) => 1 <= n <= s.len(),
            None => true,
        },
{
    reveal_strlit("'''");
    reveal_strlit("''");
    reveal_strlit("~~");
    reveal_strlit("--");
    reveal_strlit("__");
    reveal_strlit("^^");
    reveal_strlit(",,");
    lemma_marked(s, "'''"@, SemanticKind::Strong);
    lemma_marked(s, "''"@, SemanticKind::Emphasis);
    lemma_marked(s, "~~"@, SemanticKind::Delete);
    lemma_marked(s, "--"@, SemanticKind::Delete);
    lemma_marked(s, "__"@, SemanticKind::Underline);
    lemma_marked(s, "^^"@, SemanticKind::Superscript);
    lemma_marked(s, ",,"@, SemanticKind::Subscript);
}

/// Looks for the marker `lit` at the start of `input` and for its return.
pub fn enclosed(input: &[char], lit: &str, kind: SemanticKind) -> (r: Option<
    (SemanticKind, usize, usize),
>)
    ensures
        match r {
            Some((k, marker, inner)) => marked(input@, lit@, kind) == Some(
                (k, marker as int, inner as int),
            ),
            None => marked(input@, lit@, kind) is None,
        },
{
    if matches_at(input, 0, lit) {
        let m = lit.unicode_len();
        match position_of(input, lit, m) {
            Some(close) => Some((kind, m, close - m)),
            None => None,
        }
    } else {
        None
    }
}

/// Finds the marker pair that `input` begins with.
pub fn semantic_marker(input: &[char]) -> (r: Option<(SemanticKind, usize, usize)>)
    ensures
        match r {
            Some((kind, marker, inner)) => semantic_match(input@) == Some(
                (kind, marker as int, inner as int),
            ) && 2 * marker + inner <= input.len() && marker >= 2,
            None => semantic_match(input@) is None,
        },
{
    proof {
        lemma_semantic_match(input@);
    }
    let strong = enclosed(input, "'''", SemanticKind::Strong);
    if strong.is_some() {
        return strong;
    }
    let emphasis = enclosed(input, "''", SemanticKind::Emphasis);
    if emphasis.is_some() {
        return emphasis;
    }
    let tilde = enclosed(input, "~~", SemanticKind::Delete);
    if tilde.is_some() {
        return tilde;
    }
    let dash = enclosed(input, "--", SemanticKind::Delete);
    if dash.is_some() {
        return dash;
    }
    let underline = enclosed(input, "__", SemanticKind::Underline);
    if underline.is_some() {
        return underline;
    }
    let superscript = enclosed(input, "^^", SemanticKind::Superscript);
    if superscript.is_some() {
        return superscript;
    }
    enclosed(input, ",,", SemanticKind::Subscript)
}

/// Tells whether `input` begins with a line feed.
pub fn starts_with_linebreak(input: &[char]) -> (b: bool)
    ensures
        b == begins_with_linebreak(input@),
{
    input.len() > 0 && input[0] == '\n'
}

/// Tells whether a semantic span starts at the beginning of `input`.
pub fn starts_with_sematic_span(input: &[char]) -> (b: bool)
    ensures
        b == semantic_len(input@).is_some(),
{
    semantic_marker(input).is_some() || starts_with_linebreak(input)
}

/// The span of the given style around the given spans.
pub open spec fn semantic_with(kind: SemanticKind, inner: Seq<SpanModel>) -> SemanticSpanModel {
    match kind {
        SemanticKind::Strong => SemanticSpanModel::Strong(inner),
        SemanticKind::Emphasis => SemanticSpanModel::Emphasis(inner),
        SemanticKind::Delete => SemanticSpanModel::Delete(inner),
        SemanticKind::Underline => SemanticSpanModel::Underline(inner),
        SemanticKind::Superscript => SemanticSpanModel::Superscript(inner),
        SemanticKind::Subscript => SemanticSpanModel::Subscript(inner),
    }
}

/// The semantic span at the start of `s`: the style of its markers around the spans of
/// what they enclose; without a marker pair, the line feed.
pub open spec fn semantic_of(s: Seq<char>) -> SemanticSpanModel
    decreases s.len(), 0int,
{
    match semantic_match(s) {
        Some((kind, marker, inner)) => {
            proof {
                lemma_semantic_match(s);
            }
            semantic_with(kind, span_list_of(s.subrange(marker, marker + inner)))
        },
        None => SemanticSpanModel::Linebreak,
    }
}

/// Reads the semantic span at the start of `input`, and returns what follows it with
/// the span. `None` where no semantic span starts there.
pub fn semantic_span<'a>(input: &'a [char]) -> (r: Option<(&'a [char], SemanticSpan)>)
    ensures
        match r {
            Some((rest, span)) => semantic_len(input@) is Some && rest@ == input@.skip(
                semantic_len(input@)->0,
            ) && span.view() == semantic_of(input@) && rest@.len() < input@.len(),
            None => semantic_len(input@) is None,
        },
    decreases input@.len(), 0int,
{
    match semantic_marker(input) {
        Some((kind, marker, inner)) => {
            let spans = parse_spans(&input[marker..marker + inner]);
            let span = match kind {
                SemanticKind::Strong => SemanticSpan::Strong(spans),
                SemanticKind::Emphasis => SemanticSpan::Emphasis(spans),
                SemanticKind::Delete => SemanticSpan::Delete(spans),
                SemanticKind::Underline => SemanticSpan::Underline(spans),
                SemanticKind::Superscript => SemanticSpan::Superscript(spans),
                SemanticKind::Subscript => SemanticSpan::Subscript(spans),
            };
            Some((tail(input, 2 * marker + inner), span))
        },
        None => {
            if starts_with_linebreak(input) {
                Some((tail(input, 1), SemanticSpan::Linebreak))
            } else {
                None
            }
        },
    }
}

} // verus!
