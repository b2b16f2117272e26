//! Plain text between other spans.

use vstd::prelude::*;
use crate::span::bracket_span::{bracket_len, starts_with_bracket_span};
use crate::span::semantic_span::{semantic_len, starts_with_sematic_span};
use crate::text::{head, tail};

verus! {

/// A run of plain text stops before `s`: a semantic span or a bracket span starts
/// there. Links and macros do not stop a run.
pub open spec fn stops_inline(s: Seq<char>) -> bool {
    semantic_len(s) is Some || bracket_len(s) is Some
}

/// Where the run of plain text that holds position `i` ends: at the first position at
/// or after `i` where a run stops, or at the end of `s`.
pub open spec fn inline_end(s: Seq<char>, i: int) -> int
    decreases s.len() - i,
{
    if i < 0 || i >= s.len() {
        s.len() as int
    } else if stops_inline(s.skip(i)) {
        i
    } else {
        inline_end(s, i + 1)
    }
}

/// The run ends at or after the position it was asked for, inside `s`, and no run
/// stops before its end.
pub proof fn lemma_inline_end(s: Seq<char>, i: int)
    requires
        0 <= i <= s.len(),
    ensures
        i <= inline_end(s, i) <= s.len(),
        inline_end(s, i) < s.len() ==> stops_inline(s.skip(inline_end(s, i))),
        forall|j: int| i <= j < inline_end(s, i) ==> !stops_inline(#[trigger] s.skip(j)),
    decreases s.len() - i,
{
    if i < s.len() && !stops_inline(s.skip(i)) {
        lemma_inline_end(s, i + 1);
    }
}

/// Where no span stops a run at the very start of a text that is not empty, the run
/// from there holds at least one character.
pub proof fn lemma_inline_end_progress(s: Seq<char>)
    requires
        s.len() > 0,
        !stops_inline(s),
    ensures
        1 <= inline_end(s, 0) <= s.len(),
{
    assert(s.skip(0) =~= s);
    lemma_inline_end(s, 1);
}

/// Tells whether a run of plain text must stop before `input`.
pub fn starts_with_span(input: &[char]) -> (b: bool)
    ensures
        b == stops_inline(input@),
{
    starts_with_sematic_span(input) || starts_with_bracket_span(input)
}

/// Splits off the run of plain text at the start of `input`: the rest comes first, the
/// run second. The run is empty where a semantic or bracket span starts at once.
pub fn inline<'a>(input: &'a [char]) -> (r: (&'a [char], &'a [char]))
    ensures
        r.0@ == input@.skip(inline_end(input@, 0)),
        r.1@ == input@.take(inline_end(input@, 0)),
{
    let mut index: usize = 0;
    while index < input.len() && !starts_with_span(tail(input, index))
        invariant
            index <= input@.len(),
            inline_end(input@, index as int) == inline_end(input@, 0),
        decreases input@.len() - index,
    {
        index = index + 1;
    }
    (tail(input, index), head(input, index))
}

} // verus!
