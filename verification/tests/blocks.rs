use namumark_parser::{
    parse, Block, BracketSpan, HeadingLevel, ListIndex, ListItem, MultilineBlock, SemanticSpan,
    SinglelineBlock, Span,
};

fn text(source: &str) -> Span {
    Span::Inline(source.to_owned())
}

fn plain(source: &str) -> MultilineBlock {
    MultilineBlock::Paragraph(vec![text(source)])
}

fn open_heading(source: &str, level: HeadingLevel) -> Vec<Block> {
    vec![Block::Singleline(SinglelineBlock::OpenHeading(vec![text(source)], level))]
}

fn closed_heading(source: &str, level: HeadingLevel) -> Vec<Block> {
    vec![Block::Singleline(SinglelineBlock::ClosedHeading(vec![text(source)], level))]
}

#[test]
fn blockquote_a_line() {
    let source = ">Danuel";
    assert_eq!(
        parse(source),
        vec![Block::Multiline(MultilineBlock::Blockquote(vec![plain("Danuel")]))]
    )
}

#[test]
fn blockquote_a_line_with_space() {
    let source = "> Danuel";
    assert_eq!(
        parse(source),
        vec![Block::Multiline(MultilineBlock::Blockquote(vec![plain("Danuel")]))]
    )
}

#[test]
fn blockquote_a_line_with_a_indent() {
    let source = ">  Danuel";
    assert_eq!(
        parse(source),
        vec![Block::Multiline(MultilineBlock::Blockquote(vec![MultilineBlock::Indent(vec![
            plain("Danuel")
        ])]))]
    )
}

#[test]
fn blockquote_a_line_and_a_text() {
    let source = ">Danuel
Danuel";
    assert_eq!(
        parse(source),
        vec![
            Block::Multiline(MultilineBlock::Blockquote(vec![plain("Danuel")])),
            Block::Multiline(plain("Danuel"))
        ]
    )
}

#[test]
fn blockquote_a_line_and_a_line() {
    let source = ">Danuel
>Danuel";
    assert_eq!(
        parse(source),
        vec![Block::Multiline(MultilineBlock::Blockquote(vec![
            plain("Danuel"),
            plain("Danuel")
        ]))]
    )
}

#[test]
fn level3() {
    let source = "---";
    assert_eq!(parse(source), vec![Block::Multiline(plain("---"))]);
}

#[test]
fn level4() {
    let source = "----";
    assert_eq!(parse(source), vec![Block::Multiline(MultilineBlock::HorizontalRule)]);
}

#[test]
fn level5() {
    let source = "-----";
    assert_eq!(parse(source), vec![Block::Multiline(MultilineBlock::HorizontalRule)]);
}

#[test]
fn level6() {
    let source = "------";
    assert_eq!(parse(source), vec![Block::Multiline(MultilineBlock::HorizontalRule)]);
}

#[test]
fn level7() {
    let source = "-------";
    assert_eq!(parse(source), vec![Block::Multiline(MultilineBlock::HorizontalRule)]);
}

#[test]
fn level8() {
    let source = "--------";
    assert_eq!(parse(source), vec![Block::Multiline(MultilineBlock::HorizontalRule)]);
}

#[test]
fn level9() {
    let source = "---------";
    assert_eq!(parse(source), vec![Block::Multiline(MultilineBlock::HorizontalRule)]);
}

#[test]
fn level10() {
    let source = "----------";
    assert_eq!(
        parse(source),
        vec![Block::Multiline(MultilineBlock::Paragraph(vec![
            Span::Semantic(SemanticSpan::Delete(vec![])),
            Span::Semantic(SemanticSpan::Delete(vec![])),
            text("--")
        ]))]
    );
}

#[test]
fn indented1() {
    let source = " ----";
    assert_eq!(
        parse(source),
        vec![Block::Multiline(MultilineBlock::Indent(vec![MultilineBlock::HorizontalRule]))]
    );
}

#[test]
fn indented2() {
    let source = "  ----";
    assert_eq!(
        parse(source),
        vec![Block::Multiline(MultilineBlock::Indent(vec![MultilineBlock::Indent(vec![
            MultilineBlock::HorizontalRule
        ])]))]
    );
}

#[test]
fn indented3() {
    let source = "   ----";
    assert_eq!(
        parse(source),
        vec![Block::Multiline(MultilineBlock::Indent(vec![MultilineBlock::Indent(vec![
            MultilineBlock::Indent(vec![MultilineBlock::HorizontalRule])
        ])]))]
    );
}

#[test]
fn list_a_line() {
    let source = " *Danuel";
    assert_eq!(
        parse(source),
        vec![Block::Multiline(MultilineBlock::UnorderedList(vec![ListItem(vec![plain(
            "Danuel"
        )])]))]
    )
}

#[test]
fn list_a_line_with_space() {
    let source = " * Danuel";
    assert_eq!(
        parse(source),
        vec![Block::Multiline(MultilineBlock::UnorderedList(vec![ListItem(vec![plain(
            "Danuel"
        )])]))]
    )
}

#[test]
fn list_a_line_with_a_indent() {
    let source = " *  Danuel";
    assert_eq!(
        parse(source),
        vec![Block::Multiline(MultilineBlock::UnorderedList(vec![ListItem(vec![
            MultilineBlock::Indent(vec![plain("Danuel")])
        ])]))]
    )
}

#[test]
fn list_a_line_and_a_text() {
    let source = " *Danuel
Danuel";
    assert_eq!(
        parse(source),
        vec![
            Block::Multiline(MultilineBlock::UnorderedList(vec![ListItem(vec![plain(
                "Danuel"
            )])])),
            Block::Multiline(plain("Danuel"))
        ]
    )
}

#[test]
fn list_a_line_and_a_line() {
    let source = " *Danuel
 *Danuel";
    assert_eq!(
        parse(source),
        vec![Block::Multiline(MultilineBlock::UnorderedList(vec![
            ListItem(vec![plain("Danuel")]),
            ListItem(vec![plain("Danuel")])
        ]))]
    )
}

#[test]
fn paragraph() {
    let source = "Danuel";
    assert_eq!(parse(source), vec![Block::Multiline(plain("Danuel"))]);
}

#[test]
fn closed_heading_level_1() {
    assert_eq!(parse("=# Danuel #="), closed_heading("Danuel", HeadingLevel::One));
}

#[test]
fn closed_heading_level_2() {
    assert_eq!(parse("==# Danuel #=="), closed_heading("Danuel", HeadingLevel::Two));
}

#[test]
fn closed_heading_level_3() {
    assert_eq!(parse("===# Danuel #==="), closed_heading("Danuel", HeadingLevel::Three));
}

#[test]
fn closed_heading_level_4() {
    assert_eq!(parse("====# Danuel #===="), closed_heading("Danuel", HeadingLevel::Four));
}

#[test]
fn closed_heading_level_5() {
    assert_eq!(parse("=====# Danuel #====="), closed_heading("Danuel", HeadingLevel::Five));
}

#[test]
fn closed_heading_level_6() {
    assert_eq!(parse("======# Danuel #======"), closed_heading("Danuel", HeadingLevel::Six));
}

#[test]
fn comment() {
    let source = "##Danuel";
    assert_eq!(
        parse(source),
        vec![Block::Singleline(SinglelineBlock::Comment("Danuel".to_owned()))]
    );
}

#[test]
fn open_heading_level_1() {
    assert_eq!(parse("= Danuel ="), open_heading("Danuel", HeadingLevel::One));
}

#[test]
fn open_heading_level_2() {
    assert_eq!(parse("== Danuel =="), open_heading("Danuel", HeadingLevel::Two));
}

#[test]
fn open_heading_level_3() {
    assert_eq!(parse("=== Danuel ==="), open_heading("Danuel", HeadingLevel::Three));
}

#[test]
fn open_heading_level_4() {
    assert_eq!(parse("==== Danuel ===="), open_heading("Danuel", HeadingLevel::Four));
}

#[test]
fn open_heading_level_5() {
    assert_eq!(parse("===== Danuel ====="), open_heading("Danuel", HeadingLevel::Five));
}

#[test]
fn open_heading_level_6() {
    assert_eq!(parse("====== Danuel ======"), open_heading("Danuel", HeadingLevel::Six));
}

fn ordered(items: Vec<ListItem>, index: ListIndex) -> Block {
    Block::Multiline(MultilineBlock::OrderedList(items, index))
}

fn check_ordered_list(marker: &str, index: fn(String) -> ListIndex) {
    let one = || index("1".to_owned());
    let foo = || ListItem(vec![plain("foo")]);
    assert_eq!(parse(&format!("{}foo", marker)), vec![ordered(vec![foo()], one())]);
    assert_eq!(parse(&format!("{} foo", marker)), vec![ordered(vec![foo()], one())]);
    assert_eq!(
        parse(&format!("{}  foo", marker)),
        vec![ordered(
            vec![ListItem(vec![MultilineBlock::Indent(vec![plain("foo")])])],
            one()
        )]
    );
    assert_eq!(
        parse(&format!("{}foo {{{{{{bar}}}}}}", marker)),
        vec![ordered(
            vec![ListItem(vec![MultilineBlock::Paragraph(vec![
                text("foo "),
                Span::Bracket(BracketSpan::Inline("bar".to_owned()))
            ])])],
            one()
        )]
    );
    assert_eq!(
        parse(&format!("{}foo {{{{{{\nbar\n}}}}}}", marker)),
        vec![ordered(
            vec![ListItem(vec![MultilineBlock::Paragraph(vec![
                text("foo "),
                Span::Bracket(BracketSpan::Inline("\nbar\n".to_owned()))
            ])])],
            one()
        )]
    );
    assert_eq!(
        parse(&format!("{}#4 foo", marker)),
        vec![ordered(vec![foo()], index("4".to_owned()))]
    );
    assert_eq!(
        parse(&format!("{}foo\nbar", marker)),
        vec![ordered(vec![foo()], one()), Block::Multiline(plain("bar"))]
    );
    assert_eq!(
        parse(&format!("{}foo\n{}bar", marker, marker)),
        vec![ordered(vec![foo(), ListItem(vec![plain("bar")])], one())]
    );
}

#[test]
fn ordered_list_numeric() {
    check_ordered_list(" 1.", ListIndex::Numeric);
}

#[test]
fn ordered_list_hangul_chosung() {
    check_ordered_list(" ㄱ.", ListIndex::HangulChosung);
}

#[test]
fn ordered_list_hangul_syllable() {
    check_ordered_list(" 가.", ListIndex::HangulSyllable);
}

#[test]
fn ordered_list_lower_alphabet() {
    check_ordered_list(" a.", ListIndex::LowerAlphabet);
}

#[test]
fn ordered_list_upper_alphabet() {
    check_ordered_list(" A.", ListIndex::UpperAlphabet);
}

#[test]
fn ordered_list_lower_arabic() {
    check_ordered_list(" i.", ListIndex::LowerArabic);
}

#[test]
fn ordered_list_upper_arabic() {
    check_ordered_list(" I.", ListIndex::UpperArabic);
}
