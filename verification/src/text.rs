//! Searching and slicing character sequences.

use vstd::prelude::*;

verus! {

/// The pattern `p` stands in `s` at position `i`.
pub open spec fn has_at(s: Seq<char>, i: int, p: Seq<char>) -> bool {
    0 <= i && i + p.len() <= s.len() && s.subrange(i, i + p.len()) == p
}

/// `s` begins with the pattern `p`.
pub open spec fn starts_with(s: Seq<char>, p: Seq<char>) -> bool {
    has_at(s, 0, p)
}

/// The first position at or after `from` that holds `c`, or `s.len()` if there is none.
pub open spec fn find_char(s: Seq<char>, c: char, from: int) -> int
    decreases s.len() - from,
{
    if from < 0 || from >= s.len() {
        s.len() as int
    } else if s[from] == c {
        from
    } else {
        find_char(s, c, from + 1)
    }
}

/// The first position at or after `from` where the pattern `p` stands.
pub open spec fn find_str(s: Seq<char>, p: Seq<char>, from: int) -> Option<int>
    decreases s.len() - from,
{
    if from < 0 || from + p.len() > s.len() {
        None
    } else if has_at(s, from, p) {
        Some(from)
    } else if from >= s.len() {
        None
    } else {
        find_str(s, p, from + 1)
    }
}

/// `find_char` returns the least position that holds the character.
pub proof fn lemma_find_char(s: Seq<char>, c: char, from: int)
    requires
        0 <= from <= s.len(),
    ensures
        from <= find_char(s, c, from) <= s.len(),
        find_char(s, c, from) < s.len() ==> s[find_char(s, c, from)] == c,
        forall|j: int| from <= j < find_char(s, c, from) ==> s[j] != c,
    decreases s.len() - from,
{
    if from < s.len() && s[from] != c {
        lemma_find_char(s, c, from + 1);
    }
}

/// `find_str` returns the least position where the pattern stands.
pub proof fn lemma_find_str(s: Seq<char>, p: Seq<char>, from: int)
    requires
        0 <= from,
    ensures
        match find_str(s, p, from) {
            Some(k) => from <= k && has_at(s, k, p) && forall|j: int|
                from <= j < k ==> !has_at(s, j, p),
            None => forall|j: int| from <= j ==> !has_at(s, j, p),
        },
    decreases s.len() - from,
{
    if from + p.len() <= s.len() && !has_at(s, from, p) && from < s.len() {
        lemma_find_str(s, p, from + 1);
    }
}

/// The characters of a string, one by one.
pub fn chars_of(s: &str) -> (v: Vec<char>)
    ensures
        v@ == s@,
{
    let mut v: Vec<char> = Vec::new();
    for c in it: s.chars()
        invariant
            v@ == s@.take(it.index() as int),
            it.seq() == s@,
    {
        v.push(c);
    }
    v
}

/// The string made of the given characters.
///
/// Calls `String::from_iter` of the standard library on the slice; the claim is that
/// the string holds exactly these characters, in this order.
#[verifier::external_body]
pub(crate) fn string_of(chars: &[char]) -> (s: String)
    ensures
        s@ == chars@,
{
    String::from_iter(chars)
}

/// Tells whether the literal `lit` stands in `input` at position `i`.
pub fn matches_at(input: &[char], i: usize, lit: &str) -> (b: bool)
    ensures
        b == has_at(input@, i as int, lit@),
{
    if i > input.len() {
        return false;
    }
    let mut ok = true;
    let mut j: usize = i;
    for c in it: lit.chars()
        invariant
            it.seq() == lit@,
            ok ==> j == i + it.index() && j <= input@.len(),
            ok ==> forall|k: int| 0 <= k < it.index() ==> input@[i + k] == lit@[k],
            !ok ==> !has_at(input@, i as int, lit@),
    {
        if ok {
            if j < input.len() && input[j] == c {
                j = j + 1;
            } else {
                ok = false;
            }
        }
    }
    proof {
        if ok {
            assert(input@.subrange(i as int, i + lit@.len()) =~= lit@);
        }
    }
    ok
}

/// The first position at or after `from` that holds `c`, or the length of `input`.
pub(crate) fn position_of_char(input: &[char], c: char, from: usize) -> (k: usize)
    requires
        from <= input@.len(),
    ensures
        k == find_char(input@, c, from as int),
        from <= k <= input@.len(),
{
    let mut k: usize = from;
    while k < input.len() && input[k] != c
        invariant
            from <= k <= input@.len(),
            find_char(input@, c, k as int) == find_char(input@, c, from as int),
        decreases input@.len() - k,
    {
        k = k + 1;
    }
    k
}

/// The first position at or after `from` where the literal `lit` stands.
pub(crate) fn position_of(input: &[char], lit: &str, from: usize) -> (r: Option<usize>)
    requires
        from <= input@.len(),
    ensures
        match r {
            Some(k) => find_str(input@, lit@, from as int) == Some(k as int) && from <= k
                && k + lit@.len() <= input.len(),
            None => find_str(input@, lit@, from as int) is None,
        },
{
    let mut k: usize = from;
    while k < input.len()
        invariant
            from <= k <= input@.len(),
            find_str(input@, lit@, k as int) == find_str(input@, lit@, from as int),
        decreases input@.len() - k,
    {
        if matches_at(input, k, lit) {
            return Some(k);
        }
        k = k + 1;
    }
    if matches_at(input, k, lit) {
        Some(k)
    } else {
        None
    }
}

/// The part of `input` from position `from` to its end.
pub(crate) fn tail<'a>(input: &'a [char], from: usize) -> (r: &'a [char])
    requires
        from <= input@.len(),
    ensures
        r@ == input@.skip(from as int),
{
    &input[from..input.len()]
}

/// The first `n` characters of `input`.
pub(crate) fn head<'a>(input: &'a [char], n: usize) -> (r: &'a [char])
    requires
        n <= input@.len(),
    ensures
        r@ == input@.take(n as int),
{
    &input[0..n]
}

/// The key and the value of a token `key=value`: the token holds exactly one `=`.
pub open spec fn key_value(token: Seq<char>) -> Option<(Seq<char>, Seq<char>)> {
    let eq = find_char(token, '=', 0);
    if eq < token.len() && find_char(token, '=', eq + 1) == token.len() {
        Some((token.take(eq), token.skip(eq + 1)))
    } else {
        None
    }
}

/// Splits a token `key=value` at its only `=`.
pub fn split_key_value<'a>(token: &'a [char]) -> (r: Option<(&'a [char], &'a [char])>)
    ensures
        match r {
            Some((key, value)) => key_value(token@) == Some((key@, value@)),
            None => key_value(token@) is None,
        },
{
    let eq = position_of_char(token, '=', 0);
    if eq < token.len() && position_of_char(token, '=', eq + 1) == token.len() {
        Some((head(token, eq), tail(token, eq + 1)))
    } else {
        None
    }
}

/// `c` is white space, as the Unicode standard lists it.
pub open spec fn is_space(c: char) -> bool {
    ||| '\u{9}' <= c <= '\u{d}'
    ||| c == ' '
    ||| c == '\u{85}'
    ||| c == '\u{a0}'
    ||| c == '\u{1680}'
    ||| '\u{2000}' <= c <= '\u{200a}'
    ||| c == '\u{2028}'
    ||| c == '\u{2029}'
    ||| c == '\u{202f}'
    ||| c == '\u{205f}'
    ||| c == '\u{3000}'
}

/// The first position at or after `i` that holds no white space, or `s.len()`.
pub open spec fn skip_spaces(s: Seq<char>, i: int) -> int
    decreases s.len() - i,
{
    if i < 0 || i >= s.len() {
        s.len() as int
    } else if is_space(s[i]) {
        skip_spaces(s, i + 1)
    } else {
        i
    }
}

/// The least position from which only white space stands before `j`.
pub open spec fn drop_spaces(s: Seq<char>, j: int) -> int
    decreases j,
{
    if j <= 0 || j > s.len() {
        0
    } else if is_space(s[j - 1]) {
        drop_spaces(s, j - 1)
    } else {
        j
    }
}

/// `s` without the white space at its two ends.
pub open spec fn trim(s: Seq<char>) -> Seq<char> {
    let from = skip_spaces(s, 0);
    let to = drop_spaces(s, s.len() as int);
    if from < to {
        s.subrange(from, to)
    } else {
        Seq::empty()
    }
}

/// Tells whether `c` is white space.
pub fn is_whitespace(c: char) -> (b: bool)
    ensures
        b == is_space(c),
{
    ('\u{9}' <= c && c <= '\u{d}') || c == ' ' || c == '\u{85}' || c == '\u{a0}' || c
        == '\u{1680}' || ('\u{2000}' <= c && c <= '\u{200a}') || c == '\u{2028}' || c
        == '\u{2029}' || c == '\u{202f}' || c == '\u{205f}' || c == '\u{3000}'
}

/// Drops the white space at the two ends of `input`.
pub fn trimmed<'a>(input: &'a [char]) -> (r: &'a [char])
    ensures
        r@ == trim(input@),
{
    let mut from: usize = 0;
    while from < input.len() && is_whitespace(input[from])
        invariant
            from <= input@.len(),
            skip_spaces(input@, from as int) == skip_spaces(input@, 0),
        decreases input@.len() - from,
    {
        from = from + 1;
    }
    let mut to: usize = input.len();
    while to > 0 && is_whitespace(input[to - 1])
        invariant
            to <= input@.len(),
            drop_spaces(input@, to as int) == drop_spaces(input@, input@.len() as int),
        decreases to,
    {
        to = to - 1;
    }
    if from < to {
        &input[from..to]
    } else {
        let r = &input[0..0];
        r
    }
}

} // verus!
