use namumark_parser::{
    parse, span_list, Block, BracketSpan, CommandSpan, HeadingLevel, ListIndex, ListItem,
    MacroSpan, MultilineBlock, SemanticSpan, SinglelineBlock, Span, VideoPlatform,
};

const SAMPLES: [&str; 40] = [
    "",
    "Danuel",
    "= Danuel =",
    "----",
    " ----",
    ">Danuel",
    " *Danuel\n *Danuel",
    " 1.#4 foo",
    "'''Danuel'''",
    "[[youtube(danuel)]]",
    "----------",
    "a\nb\n\nc",
    "== a '''b''' ==\nc\n##d\n=# e #=",
    " * a {{{b\nc}}}\n * d\n  * e\n 가.#x1 f\n 가.g",
    "> a\n>> b\n>  * c\n>\nd",
    "{{{#!folding  * a\n * b\n= c =}}} d",
    "{{{#ff0000 ~~a~~}}}{{{+3 b}}}{{{-2 ,,c,,}}}{{{#!syntax rust fn main() {}}}}{{{raw}}}",
    "[[파일:a.jpg|width=200px&align=left]][[분류:가]][[/b|^^c^^]][[nicovideo(d,start=3)]]",
    "[각주][br][date][datetime][pagecount(a)][include(b,c)][목차][anchor(d)][math(e)]",
    "[age(2020-01-01)][dday(2020-01-01)][ruby(f, ruby=g, color=#000000)][*h i ''j'']",
    "a {{{b",
    "a }}} b {{{c}}} d",
    "''a'''b''c'''",
    "__a--b__c--",
    "한글 '''굵게''' [[문서|보기]]\n ㄱ.하나\n ㄱ.둘",
    ">한\r\n>글",
    " \n  \n   x",
    "=",
    "= =",
    "=  =",
    "======= x =======",
    "#",
    "##",
    "[",
    "[[",
    "[[]]",
    "{{{",
    "{{{}}}",
    "\n",
    " *\n *\n 1.\n 1.#",
];

fn spans_text(spans: &[Span]) -> String {
    spans.iter().map(span_text).collect()
}

fn span_text(span: &Span) -> String {
    match span {
        Span::Semantic(inner) => match inner {
            SemanticSpan::Delete(spans)
            | SemanticSpan::Emphasis(spans)
            | SemanticSpan::Strong(spans)
            | SemanticSpan::Subscript(spans)
            | SemanticSpan::Superscript(spans)
            | SemanticSpan::Underline(spans) => spans_text(spans),
            SemanticSpan::Linebreak => "\n".to_owned(),
        },
        Span::Bracket(inner) => match inner {
            BracketSpan::Color(spans, _)
            | BracketSpan::SizeDown(spans, _)
            | BracketSpan::SizeUp(spans, _) => spans_text(spans),
            BracketSpan::Folding(blocks) => multiline_blocks_text(blocks),
            BracketSpan::Inline(text) => text.clone(),
            BracketSpan::SyntaxHighlight(code, language) => format!("{}{}", language, code),
        },
        Span::Macro(inner) => match inner {
            MacroSpan::Age(text)
            | MacroSpan::Anchor(text)
            | MacroSpan::Dday(text)
            | MacroSpan::Include(text)
            | MacroSpan::Latex(text)
            | MacroSpan::PageCount(Some(text)) => text.clone(),
            MacroSpan::Comment(spans, label) => format!("{}{}", label, spans_text(spans)),
            MacroSpan::Ruby(Some((word, _))) => word.clone(),
            _ => String::new(),
        },
        Span::Command(inner) => match inner {
            CommandSpan::Category(text)
            | CommandSpan::Image(text, _)
            | CommandSpan::Video(text, _) => text.clone(),
            CommandSpan::Link(spans, target) => format!("{}{}", target, spans_text(spans)),
        },
        Span::Inline(text) => text.clone(),
    }
}

fn multiline_blocks_text(blocks: &[MultilineBlock]) -> String {
    blocks.iter().map(multiline_block_text).collect()
}

fn multiline_block_text(block: &MultilineBlock) -> String {
    match block {
        MultilineBlock::Blockquote(blocks) | MultilineBlock::Indent(blocks) => {
            multiline_blocks_text(blocks)
        }
        MultilineBlock::HorizontalRule => String::new(),
        MultilineBlock::OrderedList(items, _) | MultilineBlock::UnorderedList(items) => {
            items.iter().map(|item| multiline_blocks_text(&item.0)).collect()
        }
        MultilineBlock::Paragraph(spans) => spans_text(spans),
    }
}

fn blocks_text(blocks: &[Block]) -> String {
    blocks
        .iter()
        .map(|block| match block {
            Block::Singleline(SinglelineBlock::OpenHeading(spans, _))
            | Block::Singleline(SinglelineBlock::ClosedHeading(spans, _)) => spans_text(spans),
            Block::Singleline(SinglelineBlock::Comment(text)) => text.clone(),
            Block::Multiline(block) => multiline_block_text(block),
        })
        .collect()
}

fn is_subsequence(part: &str, whole: &str) -> bool {
    let mut rest = whole.chars();
    part.chars().all(|c| rest.any(|d| d == c))
}

#[test]
fn document_text_stands_in_the_document_in_order() {
    for source in SAMPLES {
        let found = blocks_text(&parse(source));
        assert!(is_subsequence(&found, source), "{:?} in {:?}", found, source);
    }
}

#[test]
fn span_text_stands_in_the_text_in_order() {
    for source in SAMPLES {
        let found = spans_text(&span_list(source));
        assert!(is_subsequence(&found, source), "{:?} in {:?}", found, source);
    }
}

#[test]
fn plain_text_is_kept_whole() {
    for source in ["Danuel", "a\nb\n\nc", "한글\n글자", "a }}} b", "a {{{b", "= =", "#", "["] {
        assert_eq!(blocks_text(&parse(source)), source);
    }
    assert_eq!(blocks_text(&parse("== a '''b''' ==\nc\n##d")), "a bc\nd");
    assert_eq!(blocks_text(&parse(" * a {{{b\nc}}}\n * d")), "a b\ncd");
}

#[test]
fn every_text_parses() {
    let pieces = [
        "", "\n", " ", "=", "#", "-", ">", "*", "'", "~", "_", "^", ",", "{{{", "}}}", "[[", "]]",
        "[", "]", "|", "(", ")", "a", "가", " 1.", " *", "#!folding ", "\r",
    ];
    for first in pieces {
        for second in pieces {
            for third in pieces {
                let source = format!("{}{}{}", first, second, third);
                let blocks = parse(&source);
                assert!(!blocks.is_empty());
                assert!(is_subsequence(&blocks_text(&blocks), &source));
            }
        }
    }
}

#[test]
fn open_heading_level_is_the_number_of_marks() {
    let levels = [
        HeadingLevel::One,
        HeadingLevel::Two,
        HeadingLevel::Three,
        HeadingLevel::Four,
        HeadingLevel::Five,
        HeadingLevel::Six,
    ];
    for (n, level) in (1..=6).zip(levels) {
        for title in ["Danuel", "a = b", "===", " ", "가 나"] {
            let marks = "=".repeat(n);
            let source = format!("{} {} {}", marks, title, marks);
            assert_eq!(
                parse(&source),
                vec![Block::Singleline(SinglelineBlock::OpenHeading(span_list(title), level))]
            );
            let source = format!("{}# {} #{}", marks, title, marks);
            assert_eq!(
                parse(&source),
                vec![Block::Singleline(SinglelineBlock::ClosedHeading(span_list(title), level))]
            );
        }
    }
}

#[test]
fn heading_with_more_marks_is_a_paragraph() {
    for n in 7..12 {
        let marks = "=".repeat(n);
        for source in
            [format!("{} Danuel {}", marks, marks), format!("{}# Danuel #{}", marks, marks)]
        {
            assert_eq!(
                parse(&source),
                vec![Block::Multiline(MultilineBlock::Paragraph(vec![Span::Inline(
                    source.clone()
                )]))]
            );
        }
    }
    assert_eq!(
        parse(" Danuel "),
        vec![Block::Multiline(MultilineBlock::Indent(vec![MultilineBlock::Paragraph(vec![
            Span::Inline("Danuel ".to_owned())
        ])]))]
    );
}

#[test]
fn rule_is_four_to_nine_dashes_inside_one_indent_for_each_space() {
    for spaces in 0..5 {
        for count in 4..=9 {
            let source = format!("{}{}", " ".repeat(spaces), "-".repeat(count));
            let mut expected = MultilineBlock::HorizontalRule;
            for _ in 0..spaces {
                expected = MultilineBlock::Indent(vec![expected]);
            }
            assert_eq!(parse(&source), vec![Block::Multiline(expected)]);
        }
        for count in [1, 2, 3, 10, 11, 12] {
            let source = format!("{}{}", " ".repeat(spaces), "-".repeat(count));
            let mut block = match parse(&source).pop() {
                Some(Block::Multiline(block)) => block,
                other => panic!("a block of lines: {:?}", other),
            };
            while let MultilineBlock::Indent(mut inner) = block {
                assert_eq!(inner.len(), 1);
                block = inner.pop().unwrap();
            }
            assert!(matches!(block, MultilineBlock::Paragraph(_)));
        }
    }
}

fn spans_markup(spans: &[Span]) -> String {
    spans
        .iter()
        .map(|span| match span {
            Span::Inline(text) => text.clone(),
            Span::Semantic(SemanticSpan::Strong(spans)) => format!("'''{}'''", spans_markup(spans)),
            Span::Semantic(SemanticSpan::Delete(spans)) => format!("--{}--", spans_markup(spans)),
            Span::Semantic(SemanticSpan::Linebreak) => "\n".to_owned(),
            Span::Command(CommandSpan::Video(url, option)) => {
                let platform = match option.platform {
                    VideoPlatform::Youtube => "youtube",
                    VideoPlatform::KakaoTv => "kakaotv",
                    VideoPlatform::NicoVideo => "nicovideo",
                };
                format!("[[{}({})]]", platform, url)
            }
            other => panic!("no markup for {:?}", other),
        })
        .collect()
}

fn items_markup(marker: &str, start: &str, items: &[ListItem]) -> String {
    let mut lines = vec![];
    for (position, item) in items.iter().enumerate() {
        let token = if position == 0 && start != "1" { format!("#{} ", start) } else { String::new() };
        lines.push(format!("{}{}{}", marker, token, multiline_blocks_markup(&item.0)));
    }
    lines.join("\n")
}

fn multiline_blocks_markup(blocks: &[MultilineBlock]) -> String {
    let lines: Vec<String> = blocks.iter().map(multiline_block_markup).collect();
    lines.join("\n")
}

fn multiline_block_markup(block: &MultilineBlock) -> String {
    match block {
        MultilineBlock::Paragraph(spans) => spans_markup(spans),
        MultilineBlock::HorizontalRule => "----".to_owned(),
        MultilineBlock::Indent(blocks) => format!(" {}", multiline_blocks_markup(blocks)),
        MultilineBlock::Blockquote(blocks) => {
            let lines: Vec<String> =
                blocks.iter().map(|block| format!(">{}", multiline_block_markup(block))).collect();
            lines.join("\n")
        }
        MultilineBlock::UnorderedList(items) => items_markup(" *", "1", items),
        MultilineBlock::OrderedList(items, ListIndex::Numeric(start)) => {
            items_markup(" 1.", start, items)
        }
        other => panic!("no markup for {:?}", other),
    }
}

fn markup(blocks: &[Block]) -> String {
    let lines: Vec<String> = blocks
        .iter()
        .map(|block| match block {
            Block::Singleline(SinglelineBlock::OpenHeading(spans, level)) => {
                let marks = "=".repeat(match level {
                    HeadingLevel::One => 1,
                    HeadingLevel::Two => 2,
                    HeadingLevel::Three => 3,
                    HeadingLevel::Four => 4,
                    HeadingLevel::Five => 5,
                    HeadingLevel::Six => 6,
                });
                format!("{} {} {}", marks, spans_markup(spans), marks)
            }
            Block::Multiline(block) => multiline_block_markup(block),
            other => panic!("no markup for {:?}", other),
        })
        .collect();
    lines.join("\n")
}

#[test]
fn parsing_the_markup_of_a_tree_gives_the_tree_again() {
    for source in [
        "Danuel",
        "= Danuel =",
        "----",
        " ----",
        ">Danuel",
        " *Danuel\n *Danuel",
        " 1.#4 foo",
        "---",
        "----------",
        "> Danuel",
        " * Danuel",
        " 1. foo\n 1.bar",
        "====== Danuel ======",
        "   ---------",
        " *Danuel\nDanuel",
    ] {
        let first = parse(source);
        assert_eq!(parse(&markup(&first)), first, "{:?}", source);
    }
    for source in ["Danuel", "'''Danuel'''", "[[youtube(danuel)]]", "[[kakaotv(danuel)]]"] {
        let first = span_list(source);
        assert_eq!(span_list(&spans_markup(&first)), first, "{:?}", source);
    }
}
