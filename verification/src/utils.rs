//! Scanning primitives: dropping one leading character, splitting at a line end, and
//! finding the end of a line that may hold `{{{ ... }}}` regions spanning several lines.

use vstd::prelude::*;
use crate::text::{
    find_char, find_str, has_at, head, lemma_find_char, matches_at, position_of, position_of_char,
    tail,
};

verus! {

/// `s` without its first character if that is `c`, else `s` itself.
pub open spec fn strip_one(s: Seq<char>, c: char) -> Seq<char> {
    if s.len() > 0 && s[0] == c {
        s.skip(1)
    } else {
        s
    }
}

/// The text before the first line feed, or all of `s` if it has none.
pub open spec fn line_content(s: Seq<char>) -> Seq<char> {
    s.take(find_char(s, '\n', 0))
}

/// How many characters the first line takes, its line feed included.
pub open spec fn line_consumed(s: Seq<char>) -> int {
    let k = find_char(s, '\n', 0);
    if k < s.len() {
        k + 1
    } else {
        s.len() as int
    }
}

/// The text after the first line feed, or nothing if `s` has none.
pub open spec fn line_rest(s: Seq<char>) -> Seq<char> {
    s.skip(line_consumed(s))
}

/// The first line ends inside `s`; in a text that is not empty it takes at least one
/// character, and the line itself holds no line feed.
pub proof fn lemma_line(s: Seq<char>)
    ensures
        line_content(s).len() <= line_consumed(s) <= s.len(),
        s.len() > 0 ==> line_consumed(s) > 0,
        line_rest(s).len() == s.len() - line_consumed(s),
        forall|i: int| 0 <= i < line_content(s).len() ==> line_content(s)[i] != '\n',
{
    lemma_find_char(s, '\n', 0);
}

/// After a region closed at depth zero, scanning stops when the next `{{{` stands on a
/// later line: some line feed comes before it.
pub open spec fn next_bracket_on_later_line(s: Seq<char>, from: int) -> bool {
    match find_str(s, "{{{"@, from) {
        Some(b) => find_char(s, '\n', from) < b,
        None => false,
    }
}

/// The range that a new closed region gives: it reaches from the earliest opener that
/// has been closed so far to the closer just met.
pub open spec fn joined_range(range: Option<(int, int)>, opened: int, closed: int) -> (int, int) {
    match range {
        Some((start, _)) => (if start < opened { start } else { opened }, closed),
        None => (opened, closed),
    }
}

/// The scan behind `line_with_bracket`, from position `index` with the openers still
/// unclosed in `stack` and the range found so far in `range`.
///
/// An opener is pushed, a closer pops; a closer that meets an empty stack ends the scan.
/// The result is the range of the closed regions: the position of the earliest closed
/// opener and the position of the last closer that matched.
pub open spec fn bracket_scan(
    s: Seq<char>,
    index: int,
    stack: Seq<int>,
    range: Option<(int, int)>,
) -> Option<(int, int)>
    decreases s.len() - index,
{
    proof {
        reveal_strlit("{{{");
        reveal_strlit("}}}");
    }
    if index < 0 || index >= s.len() {
        range
    } else if has_at(s, index, "{{{"@) {
        bracket_scan(s, index + 3, stack.push(index), range)
    } else if has_at(s, index, "}}}"@) {
        if stack.len() == 0 {
            range
        } else {
            let joined = Some(joined_range(range, stack.last(), index));
            if stack.len() == 1 && next_bracket_on_later_line(s, index + 3) {
                joined
            } else {
                bracket_scan(s, index + 3, stack.drop_last(), joined)
            }
        }
    } else {
        bracket_scan(s, index + 1, stack, range)
    }
}

/// How many characters `line_with_bracket` puts into the line.
///
/// With closed regions that begin at the start, the line ends before the last closer
/// that matched; with closed regions that begin later, it ends before the earliest of
/// them; without a closed region it is all of `s`.
pub open spec fn bracket_line_len(s: Seq<char>) -> int {
    match bracket_scan(s, 0, Seq::empty(), None) {
        Some((start, end)) => if start == 0 {
            end
        } else {
            start
        },
        None => s.len() as int,
    }
}

/// A state of the scan that can be reached: every opener on the stack and the range
/// found so far lie before `index`.
pub open spec fn scan_state_ok(
    s: Seq<char>,
    index: int,
    stack: Seq<int>,
    range: Option<(int, int)>,
) -> bool {
    &&& 0 <= index
    &&& forall|k: int| 0 <= k < stack.len() ==> 0 <= #[trigger] stack[k] < index
    &&& match range {
        Some((start, end)) => 0 <= start < end && end + 3 <= s.len() && end < index,
        None => true,
    }
}

/// The range that the scan returns lies inside `s`, and is not empty.
pub proof fn lemma_bracket_scan_bounds(
    s: Seq<char>,
    index: int,
    stack: Seq<int>,
    range: Option<(int, int)>,
)
    requires
        scan_state_ok(s, index, stack, range),
    ensures
        match bracket_scan(s, index, stack, range) {
            Some((start, end)) => 0 <= start < end && end + 3 <= s.len(),
            None => range is None,
        },
    decreases s.len() - index,
{
    reveal_strlit("{{{");
    reveal_strlit("}}}");
    if index >= s.len() {
    } else if has_at(s, index, "{{{"@) {
        lemma_bracket_scan_bounds(s, index + 3, stack.push(index), range);
    } else if has_at(s, index, "}}}"@) {
        if stack.len() > 0 {
            let joined = Some(joined_range(range, stack.last(), index));
            if !(stack.len() == 1 && next_bracket_on_later_line(s, index + 3)) {
                lemma_bracket_scan_bounds(s, index + 3, stack.drop_last(), joined);
            }
        }
    } else {
        lemma_bracket_scan_bounds(s, index + 1, stack, range);
    }
}

/// The line that `line_with_bracket` takes from a text that is not empty is not empty
/// either, and no longer than the text.
pub proof fn lemma_bracket_line_len(s: Seq<char>)
    ensures
        0 <= bracket_line_len(s) <= s.len(),
        s.len() > 0 ==> bracket_line_len(s) > 0,
{
    lemma_bracket_scan_bounds(s, 0, Seq::empty(), None);
}

/// Where the logical line that holds position `i` ends: at the first line feed at or
/// after `i` that lies outside every `{{{ ... }}}` region, or at the end of `s`.
///
/// At an opener the scan jumps over what `line_with_bracket` takes from there.
pub open spec fn logical_line_end(s: Seq<char>, i: int) -> int
    decreases s.len() - i,
{
    if i < 0 || i >= s.len() {
        s.len() as int
    } else if has_at(s, i, "{{{"@) {
        let n = bracket_line_len(s.skip(i));
        proof {
            lemma_bracket_line_len(s.skip(i));
        }
        logical_line_end(s, i + n)
    } else if s[i] == '\n' {
        i
    } else {
        logical_line_end(s, i + 1)
    }
}

/// The logical line ends at or after the position it was asked for, inside `s`; and
/// it ends on a line feed or at the end of `s`.
pub proof fn lemma_logical_line_end(s: Seq<char>, i: int)
    requires
        0 <= i <= s.len(),
    ensures
        i <= logical_line_end(s, i) <= s.len(),
        logical_line_end(s, i) < s.len() ==> s[logical_line_end(s, i)] == '\n',
        i < s.len() && s[i] != '\n' ==> i < logical_line_end(s, i),
    decreases s.len() - i,
{
    if i >= s.len() {
    } else if has_at(s, i, "{{{"@) {
        lemma_bracket_line_len(s.skip(i));
        lemma_logical_line_end(s, i + bracket_line_len(s.skip(i)));
    } else if s[i] == '\n' {
    } else {
        lemma_logical_line_end(s, i + 1);
    }
}

/// Drops one leading `c` from `input`, if there is one.
pub fn slice_by<'a>(input: &'a [char], c: char) -> (rest: &'a [char])
    ensures
        rest@ == strip_one(input@, c),
{
    if input.len() > 0 && input[0] == c {
        tail(input, 1)
    } else {
        input
    }
}

/// Drops one leading `|`.
pub fn pipeline<'a>(input: &'a [char]) -> (rest: &'a [char])
    ensures
        rest@ == strip_one(input@, '|'),
{
    slice_by(input, '|')
}

/// Drops one leading line feed.
pub fn linebreak<'a>(input: &'a [char]) -> (rest: &'a [char])
    ensures
        rest@ == strip_one(input@, '\n'),
{
    slice_by(input, '\n')
}

/// Drops one leading space.
pub fn whitespace<'a>(input: &'a [char]) -> (rest: &'a [char])
    ensures
        rest@ == strip_one(input@, ' '),
{
    slice_by(input, ' ')
}

/// Splits at the first line feed into what follows it and what stands before it.
/// Without a line feed all of `input` is the line, and nothing follows.
pub fn line<'a>(input: &'a [char]) -> (r: (&'a [char], &'a [char]))
    ensures
        r.0@ == line_rest(input@),
        r.1@ == line_content(input@),
{
    let k = position_of_char(input, '\n', 0);
    if k < input.len() {
        (tail(input, k + 1), head(input, k))
    } else {
        (tail(input, k), head(input, k))
    }
}

/// Splits `input` into a line and what follows it, treating `{{{ ... }}}` as a unit
/// even where it spans several lines.
///
/// Returns the rest first and the line second, as `line` does.
pub fn line_with_bracket<'a>(input: &'a [char]) -> (r: (&'a [char], &'a [char]))
    ensures
        r.0@ == input@.skip(bracket_line_len(input@)),
        r.1@ == input@.take(bracket_line_len(input@)),
{
    let n = bracket_line_length(input);
    (tail(input, n), head(input, n))
}

/// The length of the line that `line_with_bracket` takes.
pub fn bracket_line_length(input: &[char]) -> (n: usize)
    ensures
        n == bracket_line_len(input@),
        n <= input@.len(),
        input@.len() > 0 ==> n > 0,
{
    let mut range: Option<(usize, usize)> = None;
    let mut index: usize = 0;
    let mut stack: Vec<usize> = Vec::new();
    let ghost s = input@;
    let ghost mut gstack: Seq<int> = Seq::empty();
    let ghost mut grange: Option<(int, int)> = None;
    proof {
        reveal_strlit("{{{");
        reveal_strlit("}}}");
    }
    while index < input.len()
        invariant
            s == input@,
            "{{{"@.len() == 3,
            "}}}"@.len() == 3,
            scan_state_ok(s, index as int, gstack, grange),
            gstack.len() == stack@.len(),
            forall|k: int| 0 <= k < stack@.len() ==> gstack[k] == stack@[k] as int,
            match range {
                Some((a, b)) => grange == Some((a as int, b as int)),
                None => grange is None,
            },
            bracket_scan(s, index as int, gstack, grange) == bracket_scan(
                s,
                0,
                Seq::empty(),
                None,
            ),
        decreases input@.len() - index,
    {
        if matches_at(input, index, "{{{") {
            stack.push(index);
            proof {
                gstack = gstack.push(index as int);
            }
            index = index + 3;
        } else if matches_at(input, index, "}}}") {
            match stack.pop() {
                Some(opened) => {
                    let joined = match range {
                        Some((start, _)) => (if start < opened { start } else { opened }, index),
                        None => (opened, index),
                    };
                    proof {
                        grange = Some(joined_range(grange, gstack.last(), index as int));
                        gstack = gstack.drop_last();
                    }
                    range = Some(joined);
                    index = index + 3;
                    if stack.len() == 0 {
                        let stop = match position_of(input, "{{{", index) {
                            Some(b) => position_of_char(input, '\n', index) < b,
                            None => false,
                        };
                        if stop {
                            index = input.len();
                        }
                    }
                },
                None => {
                    index = input.len();
                },
            }
        } else {
            index = index + 1;
        }
    }
    match range {
        Some((start, end)) => if start == 0 {
            end
        } else {
            start
        },
        None => input.len(),
    }
}

/// The position where the logical line that holds position `from` ends.
pub(crate) fn logical_line_stop(input: &[char], from: usize) -> (k: usize)
    requires
        from <= input@.len(),
    ensures
        k == logical_line_end(input@, from as int),
        from <= k <= input@.len(),
{
    let mut k: usize = from;
    while k < input.len()
        invariant
            from <= k <= input@.len(),
            logical_line_end(input@, k as int) == logical_line_end(input@, from as int),
        decreases input@.len() - k,
    {
        if matches_at(input, k, "{{{") {
            let n = bracket_line_length(tail(input, k));
            k = k + n;
        } else if input[k] == '\n' {
            return k;
        } else {
            k = k + 1;
        }
    }
    k
}

/// A text without a line feed is one line: the line is the whole text, and nothing
/// follows it.
pub proof fn lemma_single_line(s: Seq<char>)
    requires
        forall|i: int| 0 <= i < s.len() ==> s[i] != '\n',
    ensures
        line_content(s) == s,
        line_consumed(s) == s.len(),
        line_rest(s).len() == 0,
{
    lemma_find_char(s, '\n', 0);
}

/// In a text that holds neither a line feed nor an opening brace, the logical line
/// runs to the end.
pub proof fn lemma_plain_logical_line(s: Seq<char>, i: int)
    requires
        0 <= i <= s.len(),
        forall|j: int| 0 <= j < s.len() ==> s[j] != '\n' && s[j] != '{',
    ensures
        logical_line_end(s, i) == s.len(),
    decreases s.len() - i,
{
    reveal_strlit("{{{");
    if i < s.len() {
        if has_at(s, i, "{{{"@) {
            assert(s.subrange(i, i + 3)[0] == '{');
        }
        lemma_plain_logical_line(s, i + 1);
    }
}

} // verus!
