//! Horizontal rules: lines of four to nine dashes.

use vstd::prelude::*;
use crate::block::multiline_block::{MultilineBlock, MultilineBlockModel};
use crate::utils::{lemma_line, line, line_content, line_rest};

verus! {

/// The first position at or after `i` that holds no space, or `s.len()`.
pub open spec fn skip_blanks(s: Seq<char>, i: int) -> int
    decreases s.len() - i,
{
    if i < 0 || i >= s.len() {
        s.len() as int
    } else if s[i] == ' ' {
        skip_blanks(s, i + 1)
    } else {
        i
    }
}

/// `line` is a horizontal rule: spaces, if any, then four to nine dashes and nothing
/// else.
pub open spec fn is_rule_line(line: Seq<char>) -> bool {
    let from = skip_blanks(line, 0);
    &&& 4 <= line.len() - from <= 9
    &&& forall|i: int| from <= i < line.len() ==> line[i] == '-'
}

/// Tells whether `input` is a horizontal rule.
pub fn is_valid(input: &[char]) -> (b: bool)
    ensures
        b == is_rule_line(input@),
{
    let mut from: usize = 0;
    while from < input.len() && input[from] == ' '
        invariant
            from <= input@.len(),
            skip_blanks(input@, from as int) == skip_blanks(input@, 0),
        decreases input@.len() - from,
    {
        from = from + 1;
    }
    let n = input.len() - from;
    if n < 4 || n > 9 {
        return false;
    }
    let mut i: usize = from;
    while i < input.len()
        invariant
            from <= i <= input@.len(),
            from == skip_blanks(input@, 0),
            4 <= input@.len() - from <= 9,
            forall|j: int| from <= j < i ==> input@[j] == '-',
        decreases input@.len() - i,
    {
        if input[i] != '-' {
            return false;
        }
        i = i + 1;
    }
    true
}

/// Tells whether the first line of `input` is a horizontal rule.
pub fn starts_with_horizontal_rule(input: &[char]) -> (b: bool)
    ensures
        b == is_rule_line(line_content(input@)),
{
    let (_, first) = line(input);
    is_valid(first)
}

/// Reads the horizontal rule at the start of `input`, and returns what follows its
/// line with the rule. `None` where the first line is no rule.
pub fn horizontal_rule<'a>(input: &'a [char]) -> (r: Option<(&'a [char], MultilineBlock)>)
    ensures
        match r {
            Some((rest, block)) => is_rule_line(line_content(input@)) && rest@ == line_rest(
                input@,
            ) && block.view() == MultilineBlockModel::HorizontalRule && rest@.len()
                < input@.len(),
            None => !is_rule_line(line_content(input@)),
        },
{
    let (rest, first) = line(input);
    if is_valid(first) {
        proof {
            lemma_line(input@);
        }
        Some((rest, MultilineBlock::HorizontalRule))
    } else {
        None
    }
}

/// `n` spaces.
pub open spec fn blanks(n: int) -> Seq<char> {
    Seq::new(n as nat, |i: int| ' ')
}

/// `n` dashes.
pub open spec fn dashes(n: int) -> Seq<char> {
    Seq::new(n as nat, |i: int| '-')
}

/// In a line of spaces and then dashes, the dashes begin after the spaces.
pub proof fn lemma_skip_blanks_count(k: int, n: int, i: int)
    requires
        0 <= i <= k,
        0 <= n,
    ensures
        skip_blanks(blanks(k) + dashes(n), i) == k,
    decreases k - i,
{
    if i < k {
        lemma_skip_blanks_count(k, n, i + 1);
    }
}

/// A line of spaces and then `n` dashes is a horizontal rule exactly when `n` is from
/// four to nine: three dashes are too few, ten too many.
pub proof fn lemma_rule_boundary(k: int, n: int)
    requires
        0 <= k,
        0 <= n,
    ensures
        is_rule_line(blanks(k) + dashes(n)) <==> 4 <= n <= 9,
{
    lemma_skip_blanks_count(k, n, 0);
}

} // verus!
