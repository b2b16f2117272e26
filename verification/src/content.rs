//! The text that a tree holds, and the law that parsing keeps it in order: whatever
//! text stands in the tree of a document stands in the document, in the same order.

use vstd::prelude::*;
use crate::block::multiline_block::blockquote::{
    begins_with_blockquote, blockquote_blocks, blockquote_rest, lemma_quote_text, quote_text,
};
use crate::block::multiline_block::horizontal_rule::is_rule_line;
use crate::block::multiline_block::indent::{begins_with_indent, indent_rest, indent_text};
use crate::block::multiline_block::list::{
    continues_list, item_rest, item_text, lemma_index_token_end, lemma_list,
    lemma_list_needs_marker, list_first, list_first_start, list_kind, list_marker, list_of,
    list_rest, list_tail_items, list_tail_rest, ListKind,
};
use crate::block::multiline_block::paragraph::{
    lemma_paragraph_end, paragraph_end, paragraph_rest, paragraph_text,
};
use crate::block::multiline_block::{multiline_block_list_of, multiline_block_of, multiline_rest};
use crate::block::singleline_block::closed_heading::closed_heading_parts;
use crate::block::singleline_block::open_heading::open_heading_parts;
use crate::block::singleline_block::{singleline_applies, singleline_of};
use crate::block::{
    block_list_of, block_of, block_rest, lemma_block_rest, BlockModel, ListItemModel,
    MultilineBlockModel, SinglelineBlockModel,
};
use crate::span::bracket_span::{
    bracket_len, bracket_of, colored, lemma_bracket_len, sized, syntax_language,
};
use crate::span::command_span::{
    command_len, command_of, lemma_command_len, link_display, link_target, simple_command,
    video_argument, video_platform,
};
use crate::span::inline::inline_end;
use crate::span::macro_span::{
    call_argument, lemma_macro_len, macro_content, macro_of, note_body, note_label, simple_macro,
};
use crate::span::semantic_span::{lemma_semantic_match, semantic_len, semantic_match, semantic_of};
use crate::span::{
    lemma_span_len, span_len, span_list_of, span_of, BracketSpanModel, CommandSpanModel,
    MacroSpanModel, SemanticSpanModel, SpanModel,
};
use crate::text::{find_char, lemma_find_char, starts_with};
use crate::utils::{
    lemma_line, lemma_logical_line_end, lemma_plain_logical_line, lemma_single_line, line_consumed,
    line_content, line_rest, logical_line_end, strip_one,
};

verus! {

/// `a` is `b` with some characters left out: the characters of `a` stand in `b`, in
/// the same order.
pub open spec fn is_subsequence(a: Seq<char>, b: Seq<char>) -> bool
    decreases b.len(),
{
    if b.len() == 0 {
        a.len() == 0
    } else {
        ||| is_subsequence(a, b.drop_last())
        ||| (a.len() > 0 && a.last() == b.last() && is_subsequence(a.drop_last(), b.drop_last()))
    }
}

/// Nothing is a subsequence of every text.
pub proof fn lemma_subsequence_empty(b: Seq<char>)
    ensures
        is_subsequence(Seq::empty(), b),
    decreases b.len(),
{
    if b.len() > 0 {
        lemma_subsequence_empty(b.drop_last());
    }
}

/// Every text is a subsequence of itself.
pub proof fn lemma_subsequence_same(a: Seq<char>)
    ensures
        is_subsequence(a, a),
    decreases a.len(),
{
    if a.len() > 0 {
        lemma_subsequence_same(a.drop_last());
    }
}

/// Subsequences of two texts, one after the other, make a subsequence of the two
/// texts, one after the other.
pub proof fn lemma_subsequence_concat(a: Seq<char>, b: Seq<char>, c: Seq<char>, d: Seq<char>)
    requires
        is_subsequence(a, b),
        is_subsequence(c, d),
    ensures
        is_subsequence(a + c, b + d),
    decreases d.len(),
{
    if d.len() > 0 {
        assert((b + d).drop_last() =~= b + d.drop_last());
        if is_subsequence(c, d.drop_last()) {
            lemma_subsequence_concat(a, b, c, d.drop_last());
        } else {
            lemma_subsequence_concat(a, b, c.drop_last(), d.drop_last());
            assert((a + c).drop_last() =~= a + c.drop_last());
        }
    }
}

/// A subsequence of a subsequence is a subsequence.
pub proof fn lemma_subsequence_chain(a: Seq<char>, b: Seq<char>, c: Seq<char>)
    requires
        is_subsequence(a, b),
        is_subsequence(b, c),
    ensures
        is_subsequence(a, c),
    decreases c.len(),
{
    if c.len() > 0 {
        if is_subsequence(b, c.drop_last()) {
            lemma_subsequence_chain(a, b, c.drop_last());
        } else if is_subsequence(a, b.drop_last()) {
            lemma_subsequence_chain(a, b.drop_last(), c.drop_last());
        } else {
            lemma_subsequence_chain(a.drop_last(), b.drop_last(), c.drop_last());
        }
    }
}

/// A part of a text is a subsequence of the text.
pub proof fn lemma_subsequence_part(s: Seq<char>, from: int, to: int)
    requires
        0 <= from <= to <= s.len(),
    ensures
        is_subsequence(s.subrange(from, to), s),
{
    let part = s.subrange(from, to);
    lemma_subsequence_empty(s.take(from));
    lemma_subsequence_same(part);
    lemma_subsequence_concat(Seq::empty(), s.take(from), part, part);
    lemma_subsequence_empty(s.skip(to));
    lemma_subsequence_concat(part, s.take(from) + part, Seq::empty(), s.skip(to));
    assert(s.take(from) + part + s.skip(to) =~= s);
}

/// A subsequence of a part of a text is a subsequence of the text.
pub proof fn lemma_subsequence_within(a: Seq<char>, s: Seq<char>, from: int, to: int)
    requires
        0 <= from <= to <= s.len(),
        is_subsequence(a, s.subrange(from, to)),
    ensures
        is_subsequence(a, s),
{
    lemma_subsequence_part(s, from, to);
    lemma_subsequence_chain(a, s.subrange(from, to), s);
}

/// Two subsequences, the first of the text before a position and the second of the
/// text from that position on, make one subsequence of the text.
pub proof fn lemma_subsequence_split(a: Seq<char>, c: Seq<char>, s: Seq<char>, at: int)
    requires
        0 <= at <= s.len(),
        is_subsequence(a, s.take(at)),
        is_subsequence(c, s.skip(at)),
    ensures
        is_subsequence(a + c, s),
{
    lemma_subsequence_concat(a, s.take(at), c, s.skip(at));
    assert(s.take(at) + s.skip(at) =~= s);
}

/// The text of a span: what it holds as characters, and the text of the spans and
/// blocks inside it, in the order of the tree. Options, colours and levels hold no
/// text.
pub open spec fn span_text(span: SpanModel) -> Seq<char>
    decreases span,
{
    match span {
        SpanModel::Semantic(inner) => match inner {
            SemanticSpanModel::Delete(spans) => spans_text(spans),
            SemanticSpanModel::Emphasis(spans) => spans_text(spans),
            SemanticSpanModel::Strong(spans) => spans_text(spans),
            SemanticSpanModel::Subscript(spans) => spans_text(spans),
            SemanticSpanModel::Superscript(spans) => spans_text(spans),
            SemanticSpanModel::Underline(spans) => spans_text(spans),
            SemanticSpanModel::Linebreak => seq!['\n'],
        },
        SpanModel::Bracket(inner) => match inner {
            BracketSpanModel::Color(spans, _) => spans_text(spans),
            BracketSpanModel::Folding(blocks) => multiline_blocks_text(blocks),
            BracketSpanModel::Inline(text) => text,
            BracketSpanModel::SizeDown(spans, _) => spans_text(spans),
            BracketSpanModel::SizeUp(spans, _) => spans_text(spans),
            BracketSpanModel::SyntaxHighlight(code, language) => language + code,
        },
        SpanModel::Macro(inner) => match inner {
            MacroSpanModel::Age(date) => date,
            MacroSpanModel::Anchor(name) => name,
            MacroSpanModel::Comment(spans, label) => label + spans_text(spans),
            MacroSpanModel::Dday(date) => date,
            MacroSpanModel::Include(name) => name,
            MacroSpanModel::Latex(formula) => formula,
            MacroSpanModel::PageCount(Some(name)) => name,
            MacroSpanModel::Ruby(Some((word, _))) => word,
            _ => Seq::empty(),
        },
        SpanModel::Command(inner) => match inner {
            CommandSpanModel::Category(name) => name,
            CommandSpanModel::Image(url, _) => url,
            CommandSpanModel::Link(spans, target) => target + spans_text(spans),
            CommandSpanModel::Video(url, _) => url,
        },
        SpanModel::Inline(text) => text,
    }
}

/// The text of a sequence of spans: their texts, one after the other.
pub open spec fn spans_text(spans: Seq<SpanModel>) -> Seq<char>
    decreases spans,
{
    if spans.len() == 0 {
        Seq::empty()
    } else {
        spans_text(spans.drop_last()) + span_text(spans.last())
    }
}

/// The text of a block: the text of the spans, blocks and items inside it, in the
/// order of the tree. A horizontal rule holds no text, and neither does the index of a
/// list.
pub open spec fn multiline_block_text(block: MultilineBlockModel) -> Seq<char>
    decreases block,
{
    match block {
        MultilineBlockModel::Blockquote(blocks) => multiline_blocks_text(blocks),
        MultilineBlockModel::HorizontalRule => Seq::empty(),
        MultilineBlockModel::Indent(blocks) => multiline_blocks_text(blocks),
        MultilineBlockModel::OrderedList(items, _) => list_items_text(items),
        MultilineBlockModel::Paragraph(spans) => spans_text(spans),
        MultilineBlockModel::UnorderedList(items) => list_items_text(items),
    }
}

/// The text of a sequence of blocks: their texts, one after the other.
pub open spec fn multiline_blocks_text(blocks: Seq<MultilineBlockModel>) -> Seq<char>
    decreases blocks,
{
    if blocks.len() == 0 {
        Seq::empty()
    } else {
        multiline_blocks_text(blocks.drop_last()) + multiline_block_text(blocks.last())
    }
}

/// The text of a sequence of list items: the texts of their bodies, one after the
/// other.
pub open spec fn list_items_text(items: Seq<ListItemModel>) -> Seq<char>
    decreases items,
{
    if items.len() == 0 {
        Seq::empty()
    } else {
        list_items_text(items.drop_last()) + multiline_blocks_text(items.last().0)
    }
}

/// The text of a block of one line: the text of a heading's spans, or the comment.
pub open spec fn singleline_block_text(block: SinglelineBlockModel) -> Seq<char> {
    match block {
        SinglelineBlockModel::OpenHeading(spans, _) => spans_text(spans),
        SinglelineBlockModel::ClosedHeading(spans, _) => spans_text(spans),
        SinglelineBlockModel::Comment(text) => text,
    }
}

/// The text of a block.
pub open spec fn block_text(block: BlockModel) -> Seq<char> {
    match block {
        BlockModel::Singleline(inner) => singleline_block_text(inner),
        BlockModel::Multiline(inner) => multiline_block_text(inner),
    }
}

/// The text of a document: the texts of its blocks, one after the other.
pub open spec fn blocks_text(blocks: Seq<BlockModel>) -> Seq<char>
    decreases blocks.len(),
{
    if blocks.len() == 0 {
        Seq::empty()
    } else {
        blocks_text(blocks.drop_last()) + block_text(blocks.last())
    }
}

/// The text of a span followed by more spans begins with the text of the span.
pub proof fn lemma_spans_text_first(first: SpanModel, rest: Seq<SpanModel>)
    ensures
        spans_text(seq![first] + rest) == span_text(first) + spans_text(rest),
    decreases rest.len(),
{
    let all = seq![first] + rest;
    if rest.len() == 0 {
        assert(all.drop_last() =~= Seq::<SpanModel>::empty());
        assert(spans_text(Seq::<SpanModel>::empty()) =~= Seq::<char>::empty());
    } else {
        assert(all.drop_last() =~= seq![first] + rest.drop_last());
        lemma_spans_text_first(first, rest.drop_last());
    }
}

/// The text of a block followed by more blocks begins with the text of the block.
pub proof fn lemma_multiline_blocks_text_first(
    first: MultilineBlockModel,
    rest: Seq<MultilineBlockModel>,
)
    ensures
        multiline_blocks_text(seq![first] + rest) == multiline_block_text(first)
            + multiline_blocks_text(rest),
    decreases rest.len(),
{
    let all = seq![first] + rest;
    if rest.len() == 0 {
        assert(all.drop_last() =~= Seq::<MultilineBlockModel>::empty());
        assert(multiline_blocks_text(Seq::<MultilineBlockModel>::empty()) =~= Seq::<char>::empty());
    } else {
        assert(all.drop_last() =~= seq![first] + rest.drop_last());
        lemma_multiline_blocks_text_first(first, rest.drop_last());
    }
}

/// The text of an item followed by more items begins with the text of the item.
pub proof fn lemma_list_items_text_first(first: ListItemModel, rest: Seq<ListItemModel>)
    ensures
        list_items_text(seq![first] + rest) == multiline_blocks_text(first.0) + list_items_text(
            rest,
        ),
    decreases rest.len(),
{
    let all = seq![first] + rest;
    if rest.len() == 0 {
        assert(all.drop_last() =~= Seq::<ListItemModel>::empty());
        assert(list_items_text(Seq::<ListItemModel>::empty()) =~= Seq::<char>::empty());
    } else {
        assert(all.drop_last() =~= seq![first] + rest.drop_last());
        lemma_list_items_text_first(first, rest.drop_last());
    }
}

/// The text of a block followed by more blocks begins with the text of the block.
pub proof fn lemma_blocks_text_first(first: BlockModel, rest: Seq<BlockModel>)
    ensures
        blocks_text(seq![first] + rest) == block_text(first) + blocks_text(rest),
    decreases rest.len(),
{
    let all = seq![first] + rest;
    if rest.len() == 0 {
        assert(all.drop_last() =~= Seq::<BlockModel>::empty());
        assert(blocks_text(Seq::<BlockModel>::empty()) =~= Seq::<char>::empty());
    } else {
        assert(all.drop_last() =~= seq![first] + rest.drop_last());
        lemma_blocks_text_first(first, rest.drop_last());
    }
}

/// Dropping one leading character leaves a subsequence.
pub proof fn lemma_strip_one(s: Seq<char>, c: char)
    ensures
        is_subsequence(strip_one(s, c), s),
{
    if s.len() > 0 && s[0] == c {
        lemma_subsequence_part(s, 1, s.len() as int);
    } else {
        lemma_subsequence_same(s);
    }
}

/// A subsequence of a text, followed by nothing, is a subsequence of the text
/// followed by anything.
pub proof fn lemma_subsequence_before(a: Seq<char>, b: Seq<char>, rest: Seq<char>)
    requires
        is_subsequence(a + rest, b),
    ensures
        is_subsequence(a, b),
{
    lemma_subsequence_same(a);
    lemma_subsequence_empty(rest);
    lemma_subsequence_concat(a, a, Seq::empty(), rest);
    lemma_subsequence_chain(a, a + rest, b);
}

/// The text of the semantic span at the start of `s` stands in what the span takes.
pub proof fn lemma_semantic_text(s: Seq<char>)
    requires
        semantic_len(s) is Some,
    ensures
        is_subsequence(
            span_text(SpanModel::Semantic(semantic_of(s))),
            s.take(semantic_len(s)->0),
        ),
    decreases s.len(), 0int,
{
    lemma_semantic_match(s);
    match semantic_match(s) {
        Some((kind, marker, inner)) => {
            let enclosed = s.subrange(marker, marker + inner);
            let taken = s.take(2 * marker + inner);
            lemma_span_list_text(enclosed);
            assert(taken.subrange(marker, marker + inner) =~= enclosed);
            lemma_subsequence_within(
                spans_text(span_list_of(enclosed)),
                taken,
                marker,
                marker + inner,
            );
        },
        None => {
            assert(s.take(1) =~= seq!['\n']);
            lemma_subsequence_same(s.take(1));
        },
    }
}

/// The text of the content of `{{{ ... }}}` stands in the content.
pub proof fn lemma_bracket_text(c: Seq<char>)
    ensures
        is_subsequence(span_text(SpanModel::Bracket(bracket_of(c))), c),
    decreases c.len(), 3int,
{
    reveal_strlit("#!folding ");
    reveal_strlit("#!syntax ");
    if sized(c, '+') is Some || sized(c, '-') is Some {
        lemma_span_list_text(c.skip(3));
        lemma_subsequence_within(spans_text(span_list_of(c.skip(3))), c, 3, c.len() as int);
    } else if colored(c) {
        lemma_span_list_text(c.skip(8));
        lemma_subsequence_within(spans_text(span_list_of(c.skip(8))), c, 8, c.len() as int);
    } else if starts_with(c, "#!folding "@) {
        lemma_multiline_block_list_text(c.skip(10));
        lemma_subsequence_within(
            multiline_blocks_text(multiline_block_list_of(c.skip(10))),
            c,
            10,
            c.len() as int,
        );
    } else {
        match syntax_language(c) {
            Some(language) => {
                let after = c.skip(9);
                assert(language + c.skip(9 + language.len() as int) =~= after);
                lemma_subsequence_part(c, 9, c.len() as int);
            },
            None => {
                lemma_subsequence_same(c);
            },
        }
    }
}

/// The text of the content of `[[ ... ]]` stands in the content.
pub proof fn lemma_command_text(c: Seq<char>)
    ensures
        is_subsequence(span_text(SpanModel::Command(command_of(c))), c),
    decreases c.len(), 3int,
{
    reveal_strlit("파일:");
    reveal_strlit("분류:");
    match simple_command(c) {
        Some(command) => {
            if starts_with(c, "파일:"@) {
                let rest = c.skip(3);
                let end = find_char(rest, '|', 0);
                lemma_find_char(rest, '|', 0);
                assert(rest.take(end) =~= c.subrange(3, 3 + end));
                lemma_subsequence_part(c, 3, 3 + end);
            } else {
                match video_argument(c) {
                    Some((platform, argument)) => {
                        let (_, name) = video_platform(c)->0;
                        let close = find_char(c, ')', name + 1);
                        let end = find_char(argument, ',', 0);
                        lemma_find_char(c, ')', name + 1);
                        lemma_find_char(argument, ',', 0);
                        assert(argument.take(end) =~= c.subrange(name + 1, name + 1 + end));
                        lemma_subsequence_part(c, name + 1, name + 1 + end);
                    },
                    None => {
                        lemma_subsequence_part(c, 3, c.len() as int);
                    },
                }
            }
        },
        None => {
            let end = find_char(c, '|', 0);
            lemma_find_char(c, '|', 0);
            let display = link_display(c);
            lemma_span_list_text(display);
            lemma_strip_one(c.skip(end), '|');
            lemma_subsequence_chain(spans_text(span_list_of(display)), display, c.skip(end));
            lemma_subsequence_same(c.take(end));
            lemma_subsequence_split(link_target(c), spans_text(span_list_of(display)), c, end);
        },
    }
}

/// What stands between the parentheses of `name(...)`, and every beginning of it,
/// stands in the content.
pub proof fn lemma_call_argument(c: Seq<char>, name: Seq<char>, n: int)
    requires
        call_argument(c, name) is Some,
        0 <= n <= call_argument(c, name)->0.len(),
    ensures
        is_subsequence(call_argument(c, name)->0.take(n), c),
        is_subsequence(call_argument(c, name)->0, c),
{
    let open = name.len() as int;
    let inside = call_argument(c, name)->0;
    assert(inside.take(n) =~= c.subrange(open + 1, open + 1 + n));
    lemma_subsequence_part(c, open + 1, open + 1 + n);
    lemma_subsequence_part(c, open + 1, c.len() - 1);
}

/// The text of the content of `[ ... ]` stands in the content.
pub proof fn lemma_macro_text(c: Seq<char>)
    requires
        macro_of(c) is Some,
    ensures
        is_subsequence(span_text(SpanModel::Macro(macro_of(c)->0)), c),
    decreases c.len(), 3int,
{
    lemma_subsequence_empty(c);
    match simple_macro(c) {
        Some(m) => {
            if call_argument(c, "pagecount"@) is Some {
                lemma_call_argument(c, "pagecount"@, 0);
            }
            if call_argument(c, "include"@) is Some {
                let inside = call_argument(c, "include"@)->0;
                lemma_find_char(inside, ',', 0);
                lemma_call_argument(c, "include"@, find_char(inside, ',', 0));
            }
            if call_argument(c, "anchor"@) is Some {
                lemma_call_argument(c, "anchor"@, 0);
            }
            if call_argument(c, "math"@) is Some {
                lemma_call_argument(c, "math"@, 0);
            }
            if call_argument(c, "age"@) is Some {
                lemma_call_argument(c, "age"@, 0);
            }
            if call_argument(c, "dday"@) is Some {
                lemma_call_argument(c, "dday"@, 0);
            }
            if call_argument(c, "ruby"@) is Some {
                let inside = call_argument(c, "ruby"@)->0;
                lemma_find_char(inside, ',', 0);
                lemma_call_argument(c, "ruby"@, find_char(inside, ',', 0));
            }
        },
        None => {
            let after = c.skip(1);
            let space = find_char(after, ' ', 0);
            lemma_find_char(after, ' ', 0);
            let body = note_body(c);
            let spans = spans_text(span_list_of(body));
            lemma_span_list_text(body);
            if space < after.len() {
                lemma_strip_one(after.skip(space), ' ');
                lemma_subsequence_chain(spans, body, after.skip(space));
                lemma_subsequence_same(after.take(space));
                lemma_subsequence_split(note_label(c), spans, after, space);
            }
            lemma_subsequence_within(note_label(c) + spans, c, 1, c.len() as int);
        },
    }
}

/// The text of the first span of `s` stands in what the span takes.
pub proof fn lemma_span_text(s: Seq<char>)
    ensures
        is_subsequence(span_text(span_of(s)), s.take(span_len(s))),
    decreases s.len(), 1int,
{
    if semantic_len(s) is Some {
        lemma_semantic_text(s);
    } else {
        match bracket_len(s) {
            Some(n) => {
                lemma_bracket_len(s);
                let c = s.subrange(3, n - 3);
                lemma_bracket_text(c);
                assert(s.take(n).subrange(3, n - 3) =~= c);
                lemma_subsequence_within(
                    span_text(SpanModel::Bracket(bracket_of(c))),
                    s.take(n),
                    3,
                    n - 3,
                );
            },
            None => match command_len(s) {
                Some(n) => {
                    lemma_command_len(s);
                    let c = s.subrange(2, n - 2);
                    lemma_command_text(c);
                    assert(s.take(n).subrange(2, n - 2) =~= c);
                    lemma_subsequence_within(
                        span_text(SpanModel::Command(command_of(c))),
                        s.take(n),
                        2,
                        n - 2,
                    );
                },
                None => match macro_content(s) {
                    Some(c) => {
                        lemma_macro_len(s);
                        let n = c.len() as int + 2;
                        lemma_macro_text(c);
                        lemma_find_char(s, ']', 1);
                        assert(s.take(n).subrange(1, n - 1) =~= c);
                        lemma_subsequence_within(
                            span_text(SpanModel::Macro(macro_of(c)->0)),
                            s.take(n),
                            1,
                            n - 1,
                        );
                    },
                    None => {
                        lemma_subsequence_same(s.take(inline_end(s, 0)));
                    },
                },
            },
        }
    }
}

/// Parsing a text into spans keeps its text in order: the text of the spans is the
/// text itself with some characters left out. The characters left out are those of
/// markers and of options.
pub proof fn lemma_span_list_text(s: Seq<char>)
    ensures
        is_subsequence(spans_text(span_list_of(s)), s),
    decreases s.len(), 2int,
{
    if s.len() > 0 {
        let n = span_len(s);
        lemma_span_len(s);
        lemma_span_text(s);
        lemma_span_list_text(s.skip(n));
        lemma_spans_text_first(span_of(s), span_list_of(s.skip(n)));
        lemma_subsequence_split(
            span_text(span_of(s)),
            spans_text(span_list_of(s.skip(n))),
            s,
            n,
        );
    }
}

/// The text of the further items of a list, and then what follows the list, stand in
/// what follows the first item.
pub proof fn lemma_list_tail_text(rest: Seq<char>, marker: Seq<char>)
    ensures
        is_subsequence(
            list_items_text(list_tail_items(rest, marker)) + list_tail_rest(rest, marker),
            rest,
        ),
    decreases rest.len(), 3int,
{
    if marker.len() > 0 && continues_list(rest, marker) {
        let after = rest.skip(marker.len() as int);
        let end = logical_line_end(after, 0);
        lemma_logical_line_end(after, 0);
        let item = item_text(after);
        let next = item_rest(after);
        let body = multiline_blocks_text(multiline_block_list_of(item));
        let more = list_items_text(list_tail_items(next, marker));
        let left = list_tail_rest(next, marker);
        lemma_multiline_block_list_text(item);
        lemma_strip_one(after.take(end), ' ');
        lemma_subsequence_chain(body, item, after.take(end));
        lemma_list_tail_text(next, marker);
        lemma_strip_one(after.skip(end), '\n');
        lemma_subsequence_chain(more + left, next, after.skip(end));
        lemma_subsequence_split(body, more + left, after, end);
        lemma_subsequence_within(
            body + (more + left),
            rest,
            marker.len() as int,
            rest.len() as int,
        );
        lemma_list_items_text_first(
            ListItemModel(multiline_block_list_of(item)),
            list_tail_items(next, marker),
        );
        assert((body + more) + left =~= body + (more + left));
    } else {
        lemma_subsequence_same(rest);
    }
}

/// The text of the list that `s` begins, and then what follows the list, stand in
/// `s`.
pub proof fn lemma_list_text(s: Seq<char>, kind: ListKind)
    requires
        starts_with(s, list_marker(kind)),
    ensures
        is_subsequence(multiline_block_text(list_of(s, kind)) + list_rest(s, kind), s),
    decreases s.len(), 3int,
{
    let marker = list_marker(kind);
    lemma_list(s, kind);
    let after = s.skip(marker.len() as int);
    let first = list_first(s, kind);
    let from = s.len() - first.len();
    if list_first_start(s, kind) is Some {
        lemma_index_token_end(after, 1);
        assert(first =~= s.subrange(from, s.len() as int));
    }
    let end = logical_line_end(first, 0);
    lemma_logical_line_end(first, 0);
    let item = item_text(first);
    let next = item_rest(first);
    let more = list_items_text(list_tail_items(next, marker));
    let left = list_tail_rest(next, marker);
    lemma_list_tail_text(next, marker);
    lemma_strip_one(first.skip(end), '\n');
    lemma_subsequence_chain(more + left, next, first.skip(end));
    let body = if item.len() > 0 {
        multiline_blocks_text(multiline_block_list_of(item))
    } else {
        Seq::empty()
    };
    if item.len() > 0 {
        lemma_multiline_block_list_text(item);
        lemma_strip_one(first.take(end), ' ');
        lemma_subsequence_chain(body, item, first.take(end));
        lemma_list_items_text_first(
            ListItemModel(multiline_block_list_of(item)),
            list_tail_items(next, marker),
        );
    } else {
        lemma_subsequence_empty(first.take(end));
    }
    lemma_subsequence_split(body, more + left, first, end);
    lemma_subsequence_within(body + (more + left), s, from, s.len() as int);
    assert((body + more) + left =~= body + (more + left));
}

/// The text of the blocks of a quote, and then what follows the quote, stand in `s`.
pub proof fn lemma_blockquote_text(s: Seq<char>)
    ensures
        is_subsequence(multiline_blocks_text(blockquote_blocks(s)) + blockquote_rest(s), s),
    decreases s.len(), 3int,
{
    if begins_with_blockquote(s) {
        lemma_quote_text(s);
        let first = line_content(s);
        let n = line_consumed(s);
        let quoted = quote_text(first);
        let body = multiline_block_text(multiline_block_of(quoted, false));
        lemma_multiline_block_text(quoted, false);
        lemma_subsequence_before(body, quoted, multiline_rest(quoted, false));
        lemma_strip_one(first.skip(1), ' ');
        lemma_subsequence_chain(body, quoted, first.skip(1));
        lemma_subsequence_within(body, first, 1, first.len() as int);
        lemma_find_char(s, '\n', 0);
    assert(s.take(n).subrange(0, first.len() as int) =~= first);
        let more = multiline_blocks_text(blockquote_blocks(line_rest(s)));
        let left = blockquote_rest(line_rest(s));
        lemma_blockquote_text(line_rest(s));
        lemma_subsequence_split(body, more + left, s, n);
        lemma_multiline_blocks_text_first(
            multiline_block_of(quoted, false),
            blockquote_blocks(line_rest(s)),
        );
        assert((body + more) + left =~= body + (more + left));
    } else {
        lemma_subsequence_same(s);
    }
}

/// The text of the first block of `s`, and then what follows the block, stand in
/// `s`.
pub proof fn lemma_multiline_block_text(s: Seq<char>, with_rule: bool)
    ensures
        is_subsequence(
            multiline_block_text(multiline_block_of(s, with_rule)) + multiline_rest(s, with_rule),
            s,
        ),
    decreases s.len(), 4int,
{
    match list_kind(s) {
        Some(kind) => {
            lemma_list_text(s, kind);
        },
        None => {
            if begins_with_indent(s) {
                let after = s.skip(1);
                let end = logical_line_end(after, 0);
                lemma_logical_line_end(after, 0);
                let body = multiline_blocks_text(multiline_block_list_of(indent_text(s)));
                lemma_multiline_block_list_text(indent_text(s));
                lemma_strip_one(after.skip(end), '\n');
                lemma_subsequence_split(body, indent_rest(s), after, end);
                lemma_subsequence_within(body + indent_rest(s), s, 1, s.len() as int);
            } else if with_rule && is_rule_line(line_content(s)) {
                lemma_line(s);
                lemma_subsequence_part(s, line_consumed(s), s.len() as int);
            } else if begins_with_blockquote(s) {
                lemma_blockquote_text(s);
            } else {
                let end = paragraph_end(s, 0);
                lemma_paragraph_end(s, 0);
                let body = spans_text(span_list_of(paragraph_text(s)));
                lemma_span_list_text(paragraph_text(s));
                lemma_strip_one(s.skip(end), '\n');
                lemma_subsequence_split(body, paragraph_rest(s), s, end);
            }
        },
    }
}

/// Parsing a text into blocks keeps its text in order: the text of the blocks is the
/// text itself with some characters left out.
pub proof fn lemma_multiline_block_list_text(s: Seq<char>)
    ensures
        is_subsequence(multiline_blocks_text(multiline_block_list_of(s)), s),
    decreases s.len(), 5int,
{
    let first = multiline_block_of(s, true);
    let rest = multiline_rest(s, true);
    let body = multiline_block_text(first);
    lemma_multiline_block_text(s, true);
    if rest.len() == 0 {
        lemma_multiline_blocks_text_first(first, Seq::empty());
    } else {
        crate::block::multiline_block::lemma_multiline_rest(s, true);
        let more = multiline_blocks_text(multiline_block_list_of(rest));
        lemma_multiline_block_list_text(rest);
        lemma_subsequence_same(body);
        lemma_subsequence_concat(body, body, more, rest);
        lemma_subsequence_chain(body + more, body + rest, s);
        lemma_multiline_blocks_text_first(first, multiline_block_list_of(rest));
    }
}

/// The text of the block of one line that `s` begins with, and then what follows the
/// line, stand in `s`.
pub proof fn lemma_singleline_text(s: Seq<char>)
    requires
        singleline_applies(s),
    ensures
        is_subsequence(singleline_block_text(singleline_of(s)) + line_rest(s), s),
{
    reveal_strlit("##");
    let first = line_content(s);
    let n = line_consumed(s);
    let body = singleline_block_text(singleline_of(s));
    match open_heading_parts(first) {
        Some((level, text)) => {
            lemma_span_list_text(text);
            lemma_subsequence_within(body, first, level + 1, first.len() - level - 1);
        },
        None => match closed_heading_parts(first) {
            Some((level, text)) => {
                lemma_span_list_text(text);
                lemma_subsequence_within(body, first, level + 2, first.len() - level - 2);
            },
            None => {
                lemma_subsequence_part(first, 2, first.len() as int);
            },
        },
    }
    lemma_find_char(s, '\n', 0);
    assert(s.take(n).subrange(0, first.len() as int) =~= first);
    lemma_subsequence_same(line_rest(s));
    lemma_subsequence_split(body, line_rest(s), s, n);
}

/// Parsing a document keeps its text in order: the text of the blocks is the document
/// itself with some characters left out. The characters left out are those of markers,
/// of options and of list indices, and the line feeds between blocks.
pub proof fn lemma_block_list_text(s: Seq<char>)
    ensures
        is_subsequence(blocks_text(block_list_of(s)), s),
    decreases s.len(),
{
    let first = block_of(s);
    let rest = block_rest(s);
    let body = block_text(first);
    if singleline_applies(s) {
        lemma_singleline_text(s);
    } else {
        lemma_multiline_block_text(s, true);
    }
    if rest.len() == 0 {
        lemma_blocks_text_first(first, Seq::empty());
    } else {
        lemma_block_rest(s);
        let more = blocks_text(block_list_of(rest));
        lemma_block_list_text(rest);
        lemma_subsequence_same(body);
        lemma_subsequence_concat(body, body, more, rest);
        lemma_subsequence_chain(body + more, body + rest, s);
        lemma_blocks_text_first(first, block_list_of(rest));
    }
}

/// `c` begins no marker: it is no line feed, no space, and none of
/// `= # - > ' ~ _ ^ , { [`.
pub open spec fn is_plain_char(c: char) -> bool {
    &&& c != '\n'
    &&& c != ' '
    &&& c != '='
    &&& c != '#'
    &&& c != '-'
    &&& c != '>'
    &&& c != '\''
    &&& c != '~'
    &&& c != '_'
    &&& c != '^'
    &&& c != ','
    &&& c != '{'
    &&& c != '['
}

/// `s` holds no character that begins a marker.
pub open spec fn is_plain(s: Seq<char>) -> bool {
    forall|i: int| 0 <= i < s.len() ==> is_plain_char(#[trigger] s[i])
}

/// No span but plain text starts with a character that begins no marker.
pub proof fn lemma_plain_starts_no_span(s: Seq<char>)
    requires
        s.len() > 0,
        is_plain_char(s[0]),
    ensures
        semantic_len(s) is None,
        bracket_len(s) is None,
        command_len(s) is None,
        macro_content(s) is None,
{
    reveal_strlit("'''");
    reveal_strlit("''");
    reveal_strlit("~~");
    reveal_strlit("--");
    reveal_strlit("__");
    reveal_strlit("^^");
    reveal_strlit(",,");
    reveal_strlit("{{{");
    reveal_strlit("[[");
    assert forall|m: Seq<char>| m.len() > 0 && !is_plain_char(m[0]) implies !starts_with(s, m) by {}
    assert(!starts_with(s, "{{{"@));
}

/// In a text without marker characters a run of plain text reaches the end.
pub proof fn lemma_plain_inline_end(s: Seq<char>, i: int)
    requires
        is_plain(s),
        0 <= i <= s.len(),
    ensures
        inline_end(s, i) == s.len(),
    decreases s.len() - i,
{
    if i < s.len() {
        lemma_plain_starts_no_span(s.skip(i));
        lemma_plain_inline_end(s, i + 1);
    }
}

/// A text without marker characters is one span of plain text.
pub proof fn lemma_plain_spans(s: Seq<char>)
    requires
        is_plain(s),
        s.len() > 0,
    ensures
        span_list_of(s) == seq![SpanModel::Inline(s)],
{
    lemma_plain_starts_no_span(s);
    lemma_plain_inline_end(s, 0);
    assert(s.take(s.len() as int) =~= s);
    assert(span_of(s) == SpanModel::Inline(s));
    assert(span_list_of(s.skip(s.len() as int)) =~= Seq::<SpanModel>::empty());
}

/// A document without marker characters is one paragraph of one span, and that span
/// holds the document whole: where there is no marker, nothing is left out.
pub proof fn lemma_plain_document(s: Seq<char>)
    requires
        is_plain(s),
        s.len() > 0,
    ensures
        block_list_of(s) == seq![
            BlockModel::Multiline(MultilineBlockModel::Paragraph(seq![SpanModel::Inline(s)])),
        ],
        blocks_text(block_list_of(s)) == s,
{
    reveal_strlit("##");
    lemma_single_line(s);
    lemma_list_needs_marker(s);
    lemma_plain_logical_line(s, 0);
    lemma_plain_spans(s);
    assert(paragraph_end(s, 0) == s.len()) by {
        reveal_with_fuel(paragraph_end, 2);
    }
    assert(s.take(s.len() as int) =~= s);
    let block = BlockModel::Multiline(MultilineBlockModel::Paragraph(seq![SpanModel::Inline(s)]));
    assert(seq![block].drop_last() =~= Seq::<BlockModel>::empty());
    assert(blocks_text(Seq::<BlockModel>::empty()) =~= Seq::<char>::empty());
    lemma_spans_text_first(SpanModel::Inline(s), Seq::empty());
}

} // verus!
