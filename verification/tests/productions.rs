use namumark_parser::block::multiline_block::blockquote::blockquote;
use namumark_parser::block::multiline_block::horizontal_rule::horizontal_rule;
use namumark_parser::block::multiline_block::indent::{expect_indent, indent};
use namumark_parser::block::multiline_block::list::{
    kind_of_list, list, list_item, ordered_list, unordered_list, ListKind,
};
use namumark_parser::block::multiline_block::paragraph::paragraph;
use namumark_parser::block::multiline_block::{multiline_block, multiline_block_list};
use namumark_parser::block::singleline_block::closed_heading::{closed_heading, closed_parens};
use namumark_parser::block::singleline_block::comment::comment;
use namumark_parser::block::singleline_block::open_heading::open_heading;
use namumark_parser::block::singleline_block::{heading_level, singleline_block};
use namumark_parser::block::{block, parse_blocks};
use namumark_parser::span::bracket_span::{
    bracket_content, bracket_length, bracket_span, expect_color, expect_size, language,
};
use namumark_parser::span::command_span::{
    center, command_span, identifier, image, link, option, simple_command_span,
};
use namumark_parser::span::macro_span::{
    argument, description, macro_brackets, macro_span, namespace, ruby, simple_macro_span, word,
};
use namumark_parser::span::semantic_span::{
    enclosed, semantic_marker, semantic_span, SemanticKind,
};
use namumark_parser::span::{parse_spans, span};
use namumark_parser::text::{chars_of, is_whitespace, matches_at, split_key_value};
use namumark_parser::utils::{bracket_line_length, slice_by};
use namumark_parser::value::{alignment, color, hex_digit, is_word, size, size_from_lexeme};
use namumark_parser::{
    Alignment, Block, BracketSpan, Color, CommandSpan, FontSizeLevel, HeadingLevel, ImageOption,
    ListIndex, ListItem, MacroSpan, MultilineBlock, RubyOption, SemanticSpan, SinglelineBlock,
    Size, Span, VideoOption, VideoPlatform,
};

fn chars(source: &str) -> Vec<char> {
    source.chars().collect()
}

fn text(source: &[char]) -> String {
    source.iter().collect()
}

fn inline(source: &str) -> Span {
    Span::Inline(source.to_owned())
}

fn plain(source: &str) -> MultilineBlock {
    MultilineBlock::Paragraph(vec![inline(source)])
}

#[test]
fn text_helpers() {
    assert_eq!(chars_of("가a"), vec!['가', 'a']);
    assert!(matches_at(&chars("abc"), 1, "bc"));
    assert!(matches_at(&chars("abc"), 3, ""));
    assert!(!matches_at(&chars("abc"), 2, "cd"));
    assert!(!matches_at(&chars("abc"), 4, ""));
    assert!(is_whitespace(' ') && is_whitespace('\u{3000}') && !is_whitespace('a'));
    let token = chars("a=b");
    assert_eq!(
        split_key_value(&token).map(|(k, v)| (text(k), text(v))),
        Some(("a".to_owned(), "b".to_owned()))
    );
    for source in ["", "a", "a=b=c", "=="] {
        assert!(split_key_value(&chars(source)).is_none());
    }
    let token = chars("=");
    assert_eq!(
        split_key_value(&token).map(|(k, v)| (text(k), text(v))),
        Some(("".to_owned(), "".to_owned()))
    );
    assert_eq!(text(slice_by(&chars("xxa"), 'x')), "xa");
    assert_eq!(text(slice_by(&chars("axx"), 'x')), "axx");
    assert_eq!(bracket_line_length(&chars("ab{{{c}}}d")), 2);
    assert_eq!(bracket_line_length(&chars("{{{c}}}d")), 4);
    assert_eq!(bracket_line_length(&chars("abc")), 3);
}

#[test]
fn value_readers() {
    assert!(is_word(&chars("px"), "px"));
    assert!(!is_word(&chars("pxx"), "px"));
    assert!(!is_word(&chars("p"), "px"));
    assert_eq!(alignment(&chars("center")), Alignment::Center);
    assert_eq!(alignment(&chars("centre")), Alignment::Auto);
    assert_eq!(color(&chars("#010203")), Color::Hex(1, 2, 3));
    assert_eq!(color(&chars("#01020")), Color::Hex(0, 0, 0));
    assert_eq!(hex_digit('0'), Some(0));
    assert_eq!(hex_digit('9'), Some(9));
    assert_eq!(hex_digit('a'), Some(10));
    assert_eq!(hex_digit('F'), Some(15));
    assert_eq!(hex_digit('g'), None);
    assert_eq!(hex_digit('/'), None);
    assert_eq!(size(&chars("3.5rem")), Size::Rem("3.5".to_owned()));
    assert_eq!(size(&chars("rem")), Size::Auto);
    assert_eq!(size_from_lexeme(&chars("3px"), Some("3".to_owned())), Size::Pixel("3".to_owned()));
    assert_eq!(size_from_lexeme(&chars("3px"), None), Size::Auto);
    assert_eq!(
        size_from_lexeme(&chars("3"), Some("3000".to_owned())),
        Size::Numeric("3000".to_owned())
    );
}

#[test]
fn semantic_span_reader() {
    assert_eq!(enclosed(&chars("~~a~~b"), "~~", SemanticKind::Delete), Some((SemanticKind::Delete, 2, 1)));
    assert_eq!(enclosed(&chars("~~a~b"), "~~", SemanticKind::Delete), None);
    assert_eq!(semantic_marker(&chars("'''a'''")), Some((SemanticKind::Strong, 3, 1)));
    assert_eq!(semantic_marker(&chars("'''a''")), Some((SemanticKind::Emphasis, 2, 2)));
    assert_eq!(semantic_marker(&chars("a''b''")), None);
    let input = chars("^^a^^b");
    let (rest, found) = semantic_span(&input).unwrap();
    assert_eq!(text(rest), "b");
    assert_eq!(found, SemanticSpan::Superscript(vec![inline("a")]));
    let input = chars("\nb");
    let (rest, found) = semantic_span(&input).unwrap();
    assert_eq!((text(rest), found), ("b".to_owned(), SemanticSpan::Linebreak));
    assert!(semantic_span(&chars("b")).is_none());
    assert!(semantic_span(&chars("")).is_none());
}

#[test]
fn bracket_span_reader() {
    assert_eq!(bracket_length(&chars("{{{a}}}b")), Some(7));
    assert_eq!(bracket_length(&chars("{{{a{{{b}}}c}}}")), Some(15));
    assert_eq!(bracket_length(&chars("{{{a{{{b}}}")), None);
    assert_eq!(bracket_length(&chars("a{{{b}}}")), None);
    assert_eq!(expect_size(&chars("+3 a"), '+'), Some(FontSizeLevel::Three));
    assert_eq!(expect_size(&chars("+3 a"), '-'), None);
    assert_eq!(expect_size(&chars("+3"), '+'), None);
    assert!(expect_color(&chars("#00ffAA x")));
    assert!(!expect_color(&chars("#00ffAA")));
    assert!(!expect_color(&chars("#00ffAG x")));
    let content = chars("#!syntax rust fn");
    assert_eq!(
        language(&content).map(|(name, code)| (name.to_owned(), text(code))),
        Some(("rust".to_owned(), " fn".to_owned()))
    );
    assert!(language(&chars("#!syntax c")).is_none());
    assert!(language(&chars("#!syntaxrust")).is_none());
    assert_eq!(bracket_content(&chars("a")), BracketSpan::Inline("a".to_owned()));
    assert_eq!(
        bracket_content(&chars("-5 a")),
        BracketSpan::SizeDown(vec![inline("a")], FontSizeLevel::Five)
    );
    let input = chars("{{{#!folding a}}}b");
    let (rest, found) = bracket_span(&input).unwrap();
    assert_eq!(text(rest), "b");
    assert_eq!(found, BracketSpan::Folding(vec![plain("a")]));
    assert!(bracket_span(&chars("{{{a}}")).is_none());
}

#[test]
fn command_span_reader() {
    assert_eq!(
        option(&chars("width=1&height=2px|align=end")),
        ImageOption {
            width: Size::Numeric("1".to_owned()),
            height: Size::Pixel("2".to_owned()),
            align: Alignment::End,
            background_color: Color::Hex(0, 0, 0)
        }
    );
    assert_eq!(option(&chars("")), ImageOption::default());
    assert_eq!(
        center(&chars("abc,end=9"), VideoPlatform::NicoVideo),
        (
            "abc".to_owned(),
            VideoOption { platform: VideoPlatform::NicoVideo, end: 9, ..Default::default() }
        )
    );
    assert_eq!(
        center(&chars(""), VideoPlatform::Youtube),
        ("".to_owned(), VideoOption::default())
    );
    let input = chars("kakaotv(a,b)c");
    assert_eq!(
        identifier(&input).map(|(platform, inside)| (platform, text(inside))),
        Some((VideoPlatform::KakaoTv, "a,b".to_owned()))
    );
    assert!(identifier(&chars("kakaotv a")).is_none());
    assert!(identifier(&chars("vimeo(a)")).is_none());
    assert_eq!(
        image(&chars("a.png|width=3")),
        CommandSpan::Image(
            "a.png".to_owned(),
            ImageOption { width: Size::Numeric("3".to_owned()), ..Default::default() }
        )
    );
    assert_eq!(
        simple_command_span(&chars("분류:가")),
        Some(CommandSpan::Category("가".to_owned()))
    );
    assert_eq!(simple_command_span(&chars("가")), None);
    assert_eq!(link(&chars("a|b")), CommandSpan::Link(vec![inline("b")], "a".to_owned()));
    let input = chars("[[a]]]]");
    let (rest, found) = command_span(&input).unwrap();
    assert_eq!(text(rest), "]]");
    assert_eq!(found, CommandSpan::Link(vec![], "a".to_owned()));
    assert!(command_span(&chars("[a]]")).is_none());
    assert!(command_span(&chars("[[a]")).is_none());
}

#[test]
fn macro_span_reader() {
    let input = chars("age(1(2)");
    assert_eq!(argument(&input, "age").map(text), Some("1(2".to_owned()));
    assert!(argument(&chars("age(1)2"), "age").is_none());
    assert!(argument(&chars("age"), "age").is_none());
    assert!(argument(&chars("dday(1)"), "age").is_none());
    let input = chars("a b c");
    assert_eq!(
        description(&input).map(|(rest, label)| (text(rest), text(label))),
        Some((" b c".to_owned(), "a".to_owned()))
    );
    assert!(description(&chars("abc")).is_none());
    assert_eq!(text(namespace(&chars("a,b,c"))), "a");
    assert_eq!(text(namespace(&chars("abc"))), "abc");
    let input = chars("a, b");
    let (rest, found) = word(&input);
    assert_eq!((text(rest), text(found)), (" b".to_owned(), "a".to_owned()));
    assert_eq!(
        ruby(&chars("a,ruby=b")),
        MacroSpan::Ruby(Some((
            "a".to_owned(),
            RubyOption { color: Color::Hex(0, 0, 0), text: "b".to_owned() }
        )))
    );
    assert_eq!(simple_macro_span(&chars("br")), Some(MacroSpan::Linebreak));
    assert_eq!(simple_macro_span(&chars("*a")), None);
    assert_eq!(
        namumark_parser::span::macro_span::comment(&chars("*a b")),
        Some(MacroSpan::Comment(vec![inline("b")], "a".to_owned()))
    );
    assert_eq!(namumark_parser::span::macro_span::comment(&chars("a b")), None);
    let input = chars("[br]]");
    assert_eq!(macro_brackets(&input).map(text), Some("br".to_owned()));
    assert!(macro_brackets(&chars("[bx]")).is_none());
    let (rest, found) = macro_span(&input).unwrap();
    assert_eq!((text(rest), found), ("]".to_owned(), MacroSpan::Linebreak));
    assert!(macro_span(&chars("br]")).is_none());
}

#[test]
fn span_reader() {
    let input = chars("ab''c''");
    let (rest, found) = span(&input);
    assert_eq!((text(rest), found), ("''c''".to_owned(), inline("ab")));
    let input = chars("");
    let (rest, found) = span(&input);
    assert_eq!((text(rest), found), ("".to_owned(), inline("")));
    assert_eq!(
        parse_spans(&chars("ab''c''")),
        vec![inline("ab"), Span::Semantic(SemanticSpan::Emphasis(vec![inline("c")]))]
    );
}

#[test]
fn singleline_block_readers() {
    assert_eq!(heading_level(&chars("=== a")), 3);
    assert_eq!(heading_level(&chars("========")), 6);
    assert_eq!(heading_level(&chars("a=")), 0);
    let input = chars("==# a #==");
    assert_eq!(
        closed_parens(&input).map(|(found, level)| (text(found), level)),
        Some(("a".to_owned(), 2))
    );
    assert!(closed_parens(&chars("== a ==")).is_none());
    let input = chars("= a =\nb");
    let (rest, found) = open_heading(&input).unwrap();
    assert_eq!(text(rest), "b");
    assert_eq!(found, SinglelineBlock::OpenHeading(vec![inline("a")], HeadingLevel::One));
    assert!(closed_heading(&input).is_none());
    assert!(comment(&input).is_none());
    assert_eq!(singleline_block(&input).map(|(rest, _)| text(rest)), Some("b".to_owned()));
    let input = chars("=# a #=");
    let (rest, found) = closed_heading(&input).unwrap();
    assert_eq!(text(rest), "");
    assert_eq!(found, SinglelineBlock::ClosedHeading(vec![inline("a")], HeadingLevel::One));
    assert!(open_heading(&input).is_none());
    let input = chars("##a\n##b");
    let (rest, found) = comment(&input).unwrap();
    assert_eq!((text(rest), found), ("##b".to_owned(), SinglelineBlock::Comment("a".to_owned())));
    assert!(singleline_block(&chars("a")).is_none());
    assert!(singleline_block(&chars("")).is_none());
}

#[test]
fn multiline_block_readers() {
    let input = chars(" a\nb");
    assert_eq!(
        expect_indent(&input).map(|(rest, found)| (text(rest), text(found))),
        Some(("b".to_owned(), "a".to_owned()))
    );
    assert!(expect_indent(&chars("a")).is_none());
    let (rest, found) = indent(&input).unwrap();
    assert_eq!((text(rest), found), ("b".to_owned(), MultilineBlock::Indent(vec![plain("a")])));
    let input = chars("-----\na");
    let (rest, found) = horizontal_rule(&input).unwrap();
    assert_eq!((text(rest), found), ("a".to_owned(), MultilineBlock::HorizontalRule));
    assert!(horizontal_rule(&chars("---\na")).is_none());
    let input = chars(">a\n>b\nc");
    let (rest, found) = blockquote(&input).unwrap();
    assert_eq!(text(rest), "c");
    assert_eq!(found, MultilineBlock::Blockquote(vec![plain("a"), plain("b")]));
    assert!(blockquote(&chars("a")).is_none());
    let input = chars(" a\n>b");
    let (rest, found) = paragraph(&input);
    assert_eq!(text(rest), ">b");
    assert_eq!(
        found,
        MultilineBlock::Paragraph(vec![inline("a"), Span::Semantic(SemanticSpan::Linebreak)])
    );
    let input = chars("----");
    let (rest, found) = paragraph(&input);
    assert_eq!(text(rest), "");
    assert_eq!(
        found,
        MultilineBlock::Paragraph(vec![Span::Semantic(SemanticSpan::Delete(vec![]))])
    );
}

#[test]
fn list_readers() {
    assert_eq!(kind_of_list(&chars(" *a")), Some(ListKind::Unordered));
    assert_eq!(kind_of_list(&chars(" I.a")), Some(ListKind::UpperArabic));
    assert_eq!(kind_of_list(&chars(" ㄱ.a")), Some(ListKind::HangulChosung));
    assert_eq!(kind_of_list(&chars("a")), None);
    assert_eq!(list_item(&chars("a")), ListItem(vec![plain("a")]));
    let input = chars(" *a\n *b\nc");
    let (rest, found) = unordered_list(&input).unwrap();
    assert_eq!(text(rest), "c");
    let items = || vec![ListItem(vec![plain("a")]), ListItem(vec![plain("b")])];
    assert_eq!(found, MultilineBlock::UnorderedList(items()));
    assert!(ordered_list(&input).is_none());
    assert_eq!(list(&input).map(|(rest, _)| text(rest)), Some("c".to_owned()));
    let input = chars(" i.#iv a\n i.b\n I.c");
    let (rest, found) = ordered_list(&input).unwrap();
    assert_eq!(text(rest), " I.c");
    assert_eq!(found, MultilineBlock::OrderedList(items(), ListIndex::LowerArabic("iv".to_owned())));
    assert!(unordered_list(&input).is_none());
    assert!(list(&chars("a")).is_none());
}

#[test]
fn block_readers() {
    let input = chars("----\n>a");
    let (rest, found) = multiline_block(&input, true);
    assert_eq!((text(rest), found), (">a".to_owned(), MultilineBlock::HorizontalRule));
    let (rest, found) = multiline_block(&input, false);
    assert_eq!(text(rest), ">a");
    assert!(matches!(found, MultilineBlock::Paragraph(_)));
    assert_eq!(
        multiline_block_list(&input),
        vec![MultilineBlock::HorizontalRule, MultilineBlock::Blockquote(vec![plain("a")])]
    );
    assert_eq!(multiline_block_list(&chars("= a =")), vec![plain("= a =")]);
    let input = chars("= a =\nb");
    let (rest, found) = block(&input);
    assert_eq!(text(rest), "b");
    assert_eq!(
        found,
        Block::Singleline(SinglelineBlock::OpenHeading(vec![inline("a")], HeadingLevel::One))
    );
    assert_eq!(parse_blocks(&input).len(), 2);
    assert_eq!(parse_blocks(&chars("")), vec![Block::Multiline(MultilineBlock::Paragraph(vec![]))]);
}
