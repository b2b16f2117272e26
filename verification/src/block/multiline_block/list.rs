//! Lists: consecutive lines that begin with the same list marker.

use vstd::prelude::*;
use crate::block::multiline_block::{
    lemma_list_items_view_push, list_items_view, multiline_block_list, multiline_block_list_of,
    ListIndex, ListIndexModel, ListItem, ListItemModel, MultilineBlock, MultilineBlockModel,
};
use crate::text::{head, matches_at, starts_with, string_of, tail};
use crate::utils::{
    lemma_logical_line_end, linebreak, logical_line_end, logical_line_stop, strip_one, whitespace,
};

verus! {

/// The kinds of list, each with its own marker.
#[derive(Debug, PartialEq, Eq, Clone, Copy, Structural)]
pub enum ListKind {
    Unordered,
    Numeric,
    LowerAlphabet,
    UpperAlphabet,
    LowerArabic,
    UpperArabic,
    HangulChosung,
    HangulSyllable,
}

/// The marker that begins every item of a list of the given kind.
pub open spec fn list_marker(kind: ListKind) -> Seq<char> {
    match kind {
        ListKind::Unordered => " *"@,
        ListKind::Numeric => " 1."@,
        ListKind::LowerAlphabet => " a."@,
        ListKind::UpperAlphabet => " A."@,
        ListKind::LowerArabic => " i."@,
        ListKind::UpperArabic => " I."@,
        ListKind::HangulChosung => " ㄱ."@,
        ListKind::HangulSyllable => " 가."@,
    }
}

/// The kind of ordered list that `s` begins, if any. The markers are tried in a fixed
/// order.
pub open spec fn ordered_list_kind(s: Seq<char>) -> Option<ListKind> {
    if starts_with(s, list_marker(ListKind::Numeric)) {
        Some(ListKind::Numeric)
    } else if starts_with(s, list_marker(ListKind::LowerAlphabet)) {
        Some(ListKind::LowerAlphabet)
    } else if starts_with(s, list_marker(ListKind::UpperAlphabet)) {
        Some(ListKind::UpperAlphabet)
    } else if starts_with(s, list_marker(ListKind::LowerArabic)) {
        Some(ListKind::LowerArabic)
    } else if starts_with(s, list_marker(ListKind::UpperArabic)) {
        Some(ListKind::UpperArabic)
    } else if starts_with(s, list_marker(ListKind::HangulChosung)) {
        Some(ListKind::HangulChosung)
    } else if starts_with(s, list_marker(ListKind::HangulSyllable)) {
        Some(ListKind::HangulSyllable)
    } else {
        None
    }
}

/// The kind of list that `s` begins, if any: the unordered list is tried first.
pub open spec fn list_kind(s: Seq<char>) -> Option<ListKind> {
    if starts_with(s, list_marker(ListKind::Unordered)) {
        Some(ListKind::Unordered)
    } else {
        ordered_list_kind(s)
    }
}

/// Every marker has two or three characters.
pub proof fn lemma_list_marker(kind: ListKind)
    ensures
        2 <= list_marker(kind).len() <= 3,
{
    reveal_strlit(" *");
    reveal_strlit(" 1.");
    reveal_strlit(" a.");
    reveal_strlit(" A.");
    reveal_strlit(" i.");
    reveal_strlit(" I.");
    reveal_strlit(" ㄱ.");
    reveal_strlit(" 가.");
}

/// `c` may stand in the token that sets where a list starts to count.
pub open spec fn is_index_char(c: char) -> bool {
    '0' <= c <= '9' || 'a' <= c <= 'z'
}

/// The first position at or after `i` that holds no index character, or `s.len()`.
pub open spec fn index_token_end(s: Seq<char>, i: int) -> int
    decreases s.len() - i,
{
    if i < 0 || i >= s.len() {
        s.len() as int
    } else if is_index_char(s[i]) {
        index_token_end(s, i + 1)
    } else {
        i
    }
}

/// The length of the start token at the beginning of `s`, its `#` included: `#` and at
/// least one digit or small letter. `None` where `s` begins with no such token.
pub open spec fn list_start_len(s: Seq<char>) -> Option<int> {
    if s.len() > 0 && s[0] == '#' && index_token_end(s, 1) > 1 {
        Some(index_token_end(s, 1))
    } else {
        None
    }
}

/// The token ends at or after the position it was asked for, inside `s`.
pub proof fn lemma_index_token_end(s: Seq<char>, i: int)
    requires
        0 <= i <= s.len(),
    ensures
        i <= index_token_end(s, i) <= s.len(),
    decreases s.len() - i,
{
    if i < s.len() && is_index_char(s[i]) {
        lemma_index_token_end(s, i + 1);
    }
}

/// What an item says: its logical line, without one leading space.
pub open spec fn item_text(s: Seq<char>) -> Seq<char> {
    strip_one(s.take(logical_line_end(s, 0)), ' ')
}

/// What follows an item: the text after its logical line and the line feed there.
pub open spec fn item_rest(s: Seq<char>) -> Seq<char> {
    strip_one(s.skip(logical_line_end(s, 0)), '\n')
}

/// Neither part of an item is longer than the text it was read from.
pub proof fn lemma_item(s: Seq<char>)
    ensures
        item_text(s).len() <= s.len(),
        item_rest(s).len() <= s.len(),
{
    lemma_logical_line_end(s, 0);
}

/// A further item of the list begins `rest`: the marker stands there, and no start
/// token follows it. A start token after the marker begins a new list instead.
pub open spec fn continues_list(rest: Seq<char>, marker: Seq<char>) -> bool {
    starts_with(rest, marker) && list_start_len(rest.skip(marker.len() as int)) is None
}

/// What follows a list, given what follows its first item: the text after the last
/// further item.
pub open spec fn list_tail_rest(rest: Seq<char>, marker: Seq<char>) -> Seq<char>
    decreases rest.len(),
{
    if marker.len() > 0 && continues_list(rest, marker) {
        proof {
            lemma_item(rest.skip(marker.len() as int));
        }
        list_tail_rest(item_rest(rest.skip(marker.len() as int)), marker)
    } else {
        rest
    }
}

/// What follows a list is no longer than what follows its first item.
pub proof fn lemma_list_tail_rest(rest: Seq<char>, marker: Seq<char>)
    ensures
        list_tail_rest(rest, marker).len() <= rest.len(),
    decreases rest.len(),
{
    if marker.len() > 0 && continues_list(rest, marker) {
        lemma_item(rest.skip(marker.len() as int));
        lemma_list_tail_rest(item_rest(rest.skip(marker.len() as int)), marker);
    }
}

/// The token that the first item of a list gives for its start, if the list is ordered
/// and a token follows the marker.
pub open spec fn list_first_start(s: Seq<char>, kind: ListKind) -> Option<int> {
    if kind == ListKind::Unordered {
        None
    } else {
        list_start_len(s.skip(list_marker(kind).len() as int))
    }
}

/// The first item of a list with what follows it: the text after the marker and after
/// the start token, where there is one.
pub open spec fn list_first(s: Seq<char>, kind: ListKind) -> Seq<char> {
    let after = s.skip(list_marker(kind).len() as int);
    match list_first_start(s, kind) {
        Some(n) => after.skip(n),
        None => after,
    }
}

/// Where an ordered list starts to count: the token of its first item without the `#`,
/// or `1`.
pub open spec fn list_start_token(s: Seq<char>, kind: ListKind) -> Seq<char> {
    let after = s.skip(list_marker(kind).len() as int);
    match list_first_start(s, kind) {
        Some(n) => after.subrange(1, n),
        None => "1"@,
    }
}

/// What follows the list that `s` begins.
pub open spec fn list_rest(s: Seq<char>, kind: ListKind) -> Seq<char> {
    list_tail_rest(item_rest(list_first(s, kind)), list_marker(kind))
}

/// The first item of a list, and what follows the list, are shorter than the list's
/// text.
pub proof fn lemma_list(s: Seq<char>, kind: ListKind)
    requires
        starts_with(s, list_marker(kind)),
    ensures
        list_first(s, kind).len() < s.len(),
        item_text(list_first(s, kind)).len() < s.len(),
        item_rest(list_first(s, kind)).len() < s.len(),
        list_rest(s, kind).len() < s.len(),
{
    lemma_list_marker(kind);
    let after = s.skip(list_marker(kind).len() as int);
    if after.len() > 0 {
        lemma_index_token_end(after, 1);
    }
    lemma_item(list_first(s, kind));
    lemma_list_tail_rest(item_rest(list_first(s, kind)), list_marker(kind));
}

/// The marker of a kind of list, as text.
pub fn marker_of(kind: ListKind) -> (marker: &'static str)
    ensures
        marker@ == list_marker(kind),
        2 <= marker@.len() <= 3,
{
    proof {
        lemma_list_marker(kind);
    }
    match kind {
        ListKind::Unordered => " *",
        ListKind::Numeric => " 1.",
        ListKind::LowerAlphabet => " a.",
        ListKind::UpperAlphabet => " A.",
        ListKind::LowerArabic => " i.",
        ListKind::UpperArabic => " I.",
        ListKind::HangulChosung => " ㄱ.",
        ListKind::HangulSyllable => " 가.",
    }
}

/// Drops the marker of `kind` from the start of `input`, if it stands there.
pub fn expect_marker<'a>(input: &'a [char], kind: ListKind) -> (r: Option<&'a [char]>)
    ensures
        match r {
            Some(after) => starts_with(input@, list_marker(kind)) && after@ == input@.skip(
                list_marker(kind).len() as int,
            ) && after@.len() + 2 <= input@.len(),
            None => !starts_with(input@, list_marker(kind)),
        },
{
    let marker = marker_of(kind);
    if matches_at(input, 0, marker) {
        let n: usize = match kind {
            ListKind::Unordered => 2,
            _ => 3,
        };
        proof {
            reveal_strlit(" *");
            reveal_strlit(" 1.");
            reveal_strlit(" a.");
            reveal_strlit(" A.");
            reveal_strlit(" i.");
            reveal_strlit(" I.");
            reveal_strlit(" ㄱ.");
            reveal_strlit(" 가.");
        }
        Some(tail(input, n))
    } else {
        None
    }
}

/// Tells whether `input` begins with the marker of the unordered list.
pub fn starts_with_unordered_list(input: &[char]) -> (b: bool)
    ensures
        b == starts_with(input@, list_marker(ListKind::Unordered)),
{
    matches_at(input, 0, marker_of(ListKind::Unordered))
}

/// Finds the kind of ordered list that `input` begins.
pub fn ordered_kind(input: &[char]) -> (r: Option<ListKind>)
    ensures
        r == ordered_list_kind(input@),
{
    if matches_at(input, 0, marker_of(ListKind::Numeric)) {
        Some(ListKind::Numeric)
    } else if matches_at(input, 0, marker_of(ListKind::LowerAlphabet)) {
        Some(ListKind::LowerAlphabet)
    } else if matches_at(input, 0, marker_of(ListKind::UpperAlphabet)) {
        Some(ListKind::UpperAlphabet)
    } else if matches_at(input, 0, marker_of(ListKind::LowerArabic)) {
        Some(ListKind::LowerArabic)
    } else if matches_at(input, 0, marker_of(ListKind::UpperArabic)) {
        Some(ListKind::UpperArabic)
    } else if matches_at(input, 0, marker_of(ListKind::HangulChosung)) {
        Some(ListKind::HangulChosung)
    } else if matches_at(input, 0, marker_of(ListKind::HangulSyllable)) {
        Some(ListKind::HangulSyllable)
    } else {
        None
    }
}

/// Tells whether `input` begins with the marker of an ordered list.
pub fn starts_with_ordered_list(input: &[char]) -> (b: bool)
    ensures
        b == ordered_list_kind(input@).is_some(),
{
    ordered_kind(input).is_some()
}

/// Finds the kind of list that `input` begins.
pub fn kind_of_list(input: &[char]) -> (r: Option<ListKind>)
    ensures
        r == list_kind(input@),
{
    if starts_with_unordered_list(input) {
        Some(ListKind::Unordered)
    } else {
        ordered_kind(input)
    }
}

/// Tells whether `input` begins with a list marker.
pub fn starts_with_list(input: &[char]) -> (b: bool)
    ensures
        b == list_kind(input@).is_some(),
{
    kind_of_list(input).is_some()
}

/// Reads the start token at the beginning of `input`: returns what follows it and the
/// token without its `#`. Without a token, `input` is handed back whole.
pub fn list_start<'a>(input: &'a [char]) -> (r: (&'a [char], Option<&'a [char]>))
    ensures
        match r.1 {
            Some(token) => list_start_len(input@) is Some && token@ == input@.subrange(
                1,
                list_start_len(input@)->0,
            ) && r.0@ == input@.skip(list_start_len(input@)->0),
            None => list_start_len(input@) is None && r.0@ == input@,
        },
{
    if input.len() == 0 || input[0] != '#' {
        return (input, None);
    }
    let mut end: usize = 1;
    while end < input.len() && (('0' <= input[end] && input[end] <= '9') || ('a' <= input[end]
        && input[end] <= 'z'))
        invariant
            1 <= end <= input@.len(),
            index_token_end(input@, end as int) == index_token_end(input@, 1),
        decreases input@.len() - end,
    {
        end = end + 1;
    }
    if end > 1 {
        (tail(input, end), Some(&input[1..end]))
    } else {
        (input, None)
    }
}

/// Splits off the item at the start of `input`: what follows it comes first, the
/// item's text second.
pub fn list_item_line<'a>(input: &'a [char]) -> (r: (&'a [char], &'a [char]))
    ensures
        r.0@ == item_rest(input@),
        r.1@ == item_text(input@),
{
    let end = logical_line_stop(input, 0);
    (linebreak(tail(input, end)), whitespace(head(input, end)))
}

/// The items of a list after its first, given what follows the first item.
pub open spec fn list_tail_items(rest: Seq<char>, marker: Seq<char>) -> Seq<ListItemModel>
    decreases rest.len(), 3int,
{
    if marker.len() > 0 && continues_list(rest, marker) {
        let after = rest.skip(marker.len() as int);
        proof {
            lemma_item(after);
        }
        seq![ListItemModel(multiline_block_list_of(item_text(after)))] + list_tail_items(
            item_rest(after),
            marker,
        )
    } else {
        Seq::empty()
    }
}

/// The index of an ordered list of the given kind that starts to count at `token`.
pub open spec fn list_index(kind: ListKind, token: Seq<char>) -> ListIndexModel {
    match kind {
        ListKind::LowerAlphabet => ListIndexModel::LowerAlphabet(token),
        ListKind::UpperAlphabet => ListIndexModel::UpperAlphabet(token),
        ListKind::LowerArabic => ListIndexModel::LowerArabic(token),
        ListKind::UpperArabic => ListIndexModel::UpperArabic(token),
        ListKind::HangulChosung => ListIndexModel::HangulChosung(token),
        ListKind::HangulSyllable => ListIndexModel::HangulSyllable(token),
        _ => ListIndexModel::Numeric(token),
    }
}

/// The items of the list that `s` begins: the first item, unless it is empty, then
/// every further item.
pub open spec fn list_items(s: Seq<char>, kind: ListKind) -> Seq<ListItemModel>
    decreases s.len(), 2int,
    when starts_with(s, list_marker(kind))
{
    let first = list_first(s, kind);
    proof {
        lemma_list(s, kind);
    }
    (if item_text(first).len() > 0 {
        seq![ListItemModel(multiline_block_list_of(item_text(first)))]
    } else {
        Seq::empty()
    }) + list_tail_items(item_rest(first), list_marker(kind))
}

/// The list that `s` begins.
pub open spec fn list_of(s: Seq<char>, kind: ListKind) -> MultilineBlockModel
    decreases s.len(), 3int,
    when starts_with(s, list_marker(kind))
{
    if kind == ListKind::Unordered {
        MultilineBlockModel::UnorderedList(list_items(s, kind))
    } else {
        MultilineBlockModel::OrderedList(
            list_items(s, kind),
            list_index(kind, list_start_token(s, kind)),
        )
    }
}

/// Reads the body of an item.
pub fn list_item(input: &[char]) -> (item: ListItem)
    ensures
        item.view() == ListItemModel(multiline_block_list_of(input@)),
    decreases input@.len(), 6int,
{
    ListItem(multiline_block_list(input))
}

/// Reads the items of a list, given what follows the marker and the start token of
/// its first item. Returns what follows the list, and the items.
fn items_from<'a>(first: &'a [char], kind: ListKind) -> (r: (&'a [char], Vec<ListItem>))
    ensures
        r.0@ == list_tail_rest(item_rest(first@), list_marker(kind)),
        list_items_view(r.1@) == (if item_text(first@).len() > 0 {
            seq![ListItemModel(multiline_block_list_of(item_text(first@)))]
        } else {
            Seq::empty()
        }) + list_tail_items(item_rest(first@), list_marker(kind)),
    decreases first@.len(), 7int,
{
    let ghost marker = list_marker(kind);
    proof {
        lemma_item(first@);
        lemma_list_marker(kind);
    }
    let (after_first, text) = list_item_line(first);
    let mut items: Vec<ListItem> = Vec::new();
    if text.len() > 0 {
        let item = list_item(text);
        proof {
            lemma_list_items_view_push(items@, item);
        }
        items.push(item);
    }
    let ghost head_items = list_items_view(items@);
    let mut rest = after_first;
    loop
        invariant
            marker == list_marker(kind),
            2 <= marker.len() <= 3,
            rest@.len() <= first@.len(),
            list_tail_rest(rest@, marker) == list_tail_rest(item_rest(first@), marker),
            list_items_view(items@) + list_tail_items(rest@, marker) == head_items
                + list_tail_items(item_rest(first@), marker),
            head_items == (if item_text(first@).len() > 0 {
                seq![ListItemModel(multiline_block_list_of(item_text(first@)))]
            } else {
                Seq::empty()
            }),
        decreases rest@.len(),
    {
        let more = match expect_marker(rest, kind) {
            Some(after) => {
                let (_, token) = list_start(after);
                if token.is_some() {
                    None
                } else {
                    Some(after)
                }
            },
            None => None,
        };
        match more {
            Some(after) => {
                proof {
                    lemma_item(after@);
                }
                let (next, text) = list_item_line(after);
                let item = list_item(text);
                proof {
                    lemma_list_items_view_push(items@, item);
                }
                items.push(item);
                rest = next;
            },
            None => {
                return (rest, items);
            },
        }
    }
}

/// Reads the unordered list at the start of `input`, and returns what follows it with
/// the list. `None` where `input` does not begin with the marker.
pub fn unordered_list<'a>(input: &'a [char]) -> (r: Option<(&'a [char], MultilineBlock)>)
    ensures
        match r {
            Some((rest, block)) => starts_with(input@, list_marker(ListKind::Unordered))
                && rest@ == list_rest(input@, ListKind::Unordered) && block.view() == list_of(
                input@,
                ListKind::Unordered,
            ) && rest@.len() < input@.len(),
            None => !starts_with(input@, list_marker(ListKind::Unordered)),
        },
    decreases input@.len(), 2int,
{
    match expect_marker(input, ListKind::Unordered) {
        Some(first) => {
            proof {
                lemma_list(input@, ListKind::Unordered);
            }
            let (rest, items) = items_from(first, ListKind::Unordered);
            Some((rest, MultilineBlock::UnorderedList(items)))
        },
        None => None,
    }
}

/// The index of an ordered list.
fn index_of(kind: ListKind, token: String) -> (index: ListIndex)
    ensures
        index.view() == list_index(kind, token@),
{
    match kind {
        ListKind::LowerAlphabet => ListIndex::LowerAlphabet(token),
        ListKind::UpperAlphabet => ListIndex::UpperAlphabet(token),
        ListKind::LowerArabic => ListIndex::LowerArabic(token),
        ListKind::UpperArabic => ListIndex::UpperArabic(token),
        ListKind::HangulChosung => ListIndex::HangulChosung(token),
        ListKind::HangulSyllable => ListIndex::HangulSyllable(token),
        _ => ListIndex::Numeric(token),
    }
}

/// Reads the ordered list at the start of `input`, and returns what follows it with
/// the list. `None` where `input` begins with no marker of an ordered list.
pub fn ordered_list<'a>(input: &'a [char]) -> (r: Option<(&'a [char], MultilineBlock)>)
    ensures
        match r {
            Some((rest, block)) => ordered_list_kind(input@) is Some && rest@ == list_rest(
                input@,
                ordered_list_kind(input@)->0,
            ) && block.view() == list_of(input@, ordered_list_kind(input@)->0) && rest@.len()
                < input@.len(),
            None => ordered_list_kind(input@) is None,
        },
    decreases input@.len(), 2int,
{
    match ordered_kind(input) {
        Some(kind) => {
            proof {
                lemma_list(input@, kind);
            }
            match expect_marker(input, kind) {
                Some(after) => {
                    let (first, token) = list_start(after);
                    let start = match token {
                        Some(token) => string_of(token),
                        None => String::from_str("1"),
                    };
                    let (rest, items) = items_from(first, kind);
                    Some((rest, MultilineBlock::OrderedList(items, index_of(kind, start))))
                },
                None => None,
            }
        },
        None => None,
    }
}

/// Reads the list at the start of `input`, and returns what follows it with the list.
/// `None` where `input` begins with no list marker.
pub fn list<'a>(input: &'a [char]) -> (r: Option<(&'a [char], MultilineBlock)>)
    ensures
        match r {
            Some((rest, block)) => list_kind(input@) is Some && rest@ == list_rest(
                input@,
                list_kind(input@)->0,
            ) && block.view() == list_of(input@, list_kind(input@)->0) && rest@.len()
                < input@.len(),
            None => list_kind(input@) is None,
        },
    decreases input@.len(), 3int,
{
    match unordered_list(input) {
        Some(r) => Some(r),
        None => ordered_list(input),
    }
}

/// Every list marker begins with a space, and goes on with a character that is
/// neither a space nor a dash.
pub proof fn lemma_list_needs_marker(s: Seq<char>)
    requires
        s.len() == 0 || s[0] != ' ' || (s.len() >= 2 && (s[1] == ' ' || s[1] == '-')),
    ensures
        list_kind(s) is None,
{
    reveal_strlit(" *");
    reveal_strlit(" 1.");
    reveal_strlit(" a.");
    reveal_strlit(" A.");
    reveal_strlit(" i.");
    reveal_strlit(" I.");
    reveal_strlit(" ㄱ.");
    reveal_strlit(" 가.");
    assert forall|kind: ListKind| !starts_with(s, #[trigger] list_marker(kind)) by {
        let m = list_marker(kind);
        if starts_with(s, m) {
            assert(s.subrange(0, m.len() as int)[0] == m[0]);
            assert(s.subrange(0, m.len() as int)[1] == m[1]);
        }
    }
}

} // verus!
