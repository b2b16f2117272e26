use namumark_parser::{
    span_list, Alignment, BracketSpan, Color, CommandSpan, FontSizeLevel, ImageOption, MacroSpan,
    MultilineBlock, RubyOption, SemanticSpan, Size, Span, VideoOption, VideoPlatform,
};

fn text(source: &str) -> Span {
    Span::Inline(source.to_owned())
}

fn image(option: ImageOption) -> Vec<Span> {
    vec![Span::Command(CommandSpan::Image("a.jpg".to_owned(), option))]
}

fn sized_up(level: FontSizeLevel) -> Vec<Span> {
    vec![Span::Bracket(BracketSpan::SizeUp(vec![text("Danuel")], level))]
}

fn highlighted(code: &str, language: &str) -> Vec<Span> {
    vec![Span::Bracket(BracketSpan::SyntaxHighlight(code.to_owned(), language.to_owned()))]
}

fn video(platform: VideoPlatform) -> Vec<Span> {
    vec![Span::Command(CommandSpan::Video(
        "danuel".to_owned(),
        VideoOption { platform, ..Default::default() },
    ))]
}

#[test]
fn delete1() {
    assert_eq!(
        span_list("~~Danuel~~"),
        vec![Span::Semantic(SemanticSpan::Delete(vec![text("Danuel")]))]
    )
}

#[test]
fn delete2() {
    assert_eq!(
        span_list("--Danuel--"),
        vec![Span::Semantic(SemanticSpan::Delete(vec![text("Danuel")]))]
    )
}

#[test]
fn emphasis() {
    assert_eq!(
        span_list("''Danuel''"),
        vec![Span::Semantic(SemanticSpan::Emphasis(vec![text("Danuel")]))]
    )
}

#[test]
fn strong() {
    assert_eq!(
        span_list("'''Danuel'''"),
        vec![Span::Semantic(SemanticSpan::Strong(vec![text("Danuel")]))]
    )
}

#[test]
fn subscript() {
    assert_eq!(
        span_list(",,Danuel,,"),
        vec![Span::Semantic(SemanticSpan::Subscript(vec![text("Danuel")]))]
    )
}

#[test]
fn superscript() {
    assert_eq!(
        span_list("^^Danuel^^"),
        vec![Span::Semantic(SemanticSpan::Superscript(vec![text("Danuel")]))]
    )
}

#[test]
fn underline() {
    assert_eq!(
        span_list("__Danuel__"),
        vec![Span::Semantic(SemanticSpan::Underline(vec![text("Danuel")]))]
    )
}

#[test]
fn color_basic() {
    let source = "{{{#000000 Danuel}}}";
    assert_eq!(
        span_list(source),
        vec![Span::Bracket(BracketSpan::Color(
            vec![Span::Inline("Danuel".to_owned())],
            Color::Raw("000000".to_owned())
        ))]
    );
}

#[test]
fn folding() {
    let source = "{{{#!folding Danuel}}}";
    assert_eq!(
        span_list(source),
        vec![Span::Bracket(BracketSpan::Folding(vec![MultilineBlock::Paragraph(vec![
            Span::Inline("Danuel".to_owned())
        ])]))]
    )
}

#[test]
fn inline_basic() {
    let source = "{{{Danuel}}}";
    assert_eq!(span_list(source), vec![Span::Bracket(BracketSpan::Inline("Danuel".to_owned()))]);
}

#[test]
fn basic1() {
    assert_eq!(span_list("{{{+1 Danuel}}}"), sized_up(FontSizeLevel::One));
}

#[test]
fn basic2() {
    assert_eq!(span_list("{{{+2 Danuel}}}"), sized_up(FontSizeLevel::Two));
}

#[test]
fn basic3() {
    assert_eq!(span_list("{{{+3 Danuel}}}"), sized_up(FontSizeLevel::Three));
}

#[test]
fn basic4() {
    assert_eq!(span_list("{{{+4 Danuel}}}"), sized_up(FontSizeLevel::Four));
}

#[test]
fn basic5() {
    assert_eq!(span_list("{{{+5 Danuel}}}"), sized_up(FontSizeLevel::Five));
}

#[test]
fn javascript() {
    assert_eq!(span_list("{{{#!syntax javascript}}}"), highlighted("", "javascript"))
}

#[test]
fn javascript_with_singleline_text() {
    assert_eq!(span_list("{{{#!syntax javascript code}}}"), highlighted(" code", "javascript"))
}

#[test]
fn javascript_with_multiline_text() {
    let source = "{{{#!syntax javascript
code
}}}";
    assert_eq!(span_list(source), highlighted("\ncode\n", "javascript"))
}

#[test]
fn rust() {
    assert_eq!(span_list("{{{#!syntax rust}}}"), highlighted("", "rust"))
}

#[test]
fn rust_with_singleline_text() {
    assert_eq!(span_list("{{{#!syntax rust code}}}"), highlighted(" code", "rust"))
}

#[test]
fn rust_with_multiline_text() {
    let source = "{{{#!syntax rust
code
}}}";
    assert_eq!(span_list(source), highlighted("\ncode\n", "rust"))
}

#[test]
fn category_empty() {
    let source = "[[분류:]]";
    assert_eq!(span_list(source), vec![Span::Command(CommandSpan::Category("".to_owned()))])
}

#[test]
fn category_namespace() {
    let source = "[[분류:foo]]";
    assert_eq!(span_list(source), vec![Span::Command(CommandSpan::Category("foo".to_owned()))])
}

#[test]
fn image_basic() {
    let source = "[[파일:a.jpg]]";
    assert_eq!(span_list(source), image(Default::default()));
}

#[test]
fn width() {
    let source = "[[파일:a.jpg|width=200]]";
    assert_eq!(
        span_list(source),
        image(ImageOption { width: Size::Numeric("200".to_owned()), ..Default::default() })
    );
}

#[test]
fn height() {
    let source = "[[파일:a.jpg|height=200]]";
    assert_eq!(
        span_list(source),
        image(ImageOption { height: Size::Numeric("200".to_owned()), ..Default::default() })
    );
}

#[test]
fn height_pixel() {
    let source = "[[파일:a.jpg|height=200px]]";
    assert_eq!(
        span_list(source),
        image(ImageOption { height: Size::Pixel("200".to_owned()), ..Default::default() })
    );
}

#[test]
fn align_start() {
    let source = "[[파일:a.jpg|align=start]]";
    assert_eq!(
        span_list(source),
        image(ImageOption { align: Alignment::Start, ..Default::default() })
    );
}

#[test]
fn align_end() {
    let source = "[[파일:a.jpg|align=end]]";
    assert_eq!(
        span_list(source),
        image(ImageOption { align: Alignment::End, ..Default::default() })
    );
}

#[test]
fn align_left() {
    let source = "[[파일:a.jpg|align=left]]";
    assert_eq!(
        span_list(source),
        image(ImageOption { align: Alignment::Left, ..Default::default() })
    );
}

#[test]
fn align_center() {
    let source = "[[파일:a.jpg|align=center]]";
    assert_eq!(
        span_list(source),
        image(ImageOption { align: Alignment::Center, ..Default::default() })
    );
}

#[test]
fn align_right() {
    let source = "[[파일:a.jpg|align=right]]";
    assert_eq!(
        span_list(source),
        image(ImageOption { align: Alignment::Right, ..Default::default() })
    );
}

#[test]
fn background_hex() {
    let source = "[[파일:a.jpg|background=#000000]]";
    assert_eq!(
        span_list(source),
        image(ImageOption { background_color: Color::Hex(0, 0, 0), ..Default::default() })
    );
}

#[test]
fn width_height() {
    let source = "[[파일:a.jpg|width=200&height=200]]";
    assert_eq!(
        span_list(source),
        image(ImageOption {
            width: Size::Numeric("200".to_owned()),
            height: Size::Numeric("200".to_owned()),
            ..Default::default()
        })
    );
}

#[test]
fn height_width() {
    let source = "[[파일:a.jpg|height=200&width=200]]";
    assert_eq!(
        span_list(source),
        image(ImageOption {
            width: Size::Numeric("200".to_owned()),
            height: Size::Numeric("200".to_owned()),
            ..Default::default()
        })
    );
}

#[test]
fn link_empty() {
    let source = "[[]]";
    assert_eq!(span_list(source), vec![Span::Command(CommandSpan::Link(vec![], "".to_owned()))]);
}

#[test]
fn a_link() {
    let source = "[[/foo]]";
    assert_eq!(
        span_list(source),
        vec![Span::Command(CommandSpan::Link(vec![], "/foo".to_owned()))]
    );
}

#[test]
fn a_link_with_text() {
    let source = "[[/foo|Danuel]]";
    assert_eq!(
        span_list(source),
        vec![Span::Command(CommandSpan::Link(vec![text("Danuel")], "/foo".to_owned()))]
    );
}

#[test]
fn youtube() {
    assert_eq!(span_list("[[youtube(danuel)]]"), video(VideoPlatform::Youtube));
}

#[test]
fn kakaotv() {
    assert_eq!(span_list("[[kakaotv(danuel)]]"), video(VideoPlatform::KakaoTv));
}

#[test]
fn nicovideo() {
    assert_eq!(span_list("[[nicovideo(danuel)]]"), video(VideoPlatform::NicoVideo));
}

#[test]
fn mod_basic() {
    let source = "Danuel";
    assert_eq!(span_list(source), vec![text("Danuel")]);
}

#[test]
fn age_basic() {
    let source = "[age(2020-01-01)]";
    assert_eq!(span_list(source), vec![Span::Macro(MacroSpan::Age("2020-01-01".to_owned()))]);
}

#[test]
fn anchor_basic() {
    let source = "[anchor(foo)]";
    assert_eq!(span_list(source), vec![Span::Macro(MacroSpan::Anchor("foo".to_owned()))]);
}

#[test]
fn comment_a_text() {
    let source = "[* Danuel]";
    assert_eq!(
        span_list(source),
        vec![Span::Macro(MacroSpan::Comment(vec![text("Danuel")], "".to_owned()))]
    );
}

#[test]
fn a_text_with_a_anchor() {
    let source = "[*Foo Danuel]";
    assert_eq!(
        span_list(source),
        vec![Span::Macro(MacroSpan::Comment(vec![text("Danuel")], "Foo".to_owned()))]
    );
}

#[test]
fn date_basic() {
    let source = "[date]";
    assert_eq!(span_list(source), vec![Span::Macro(MacroSpan::Date)]);
}

#[test]
fn datetime_basic() {
    let source = "[datetime]";
    assert_eq!(span_list(source), vec![Span::Macro(MacroSpan::Datetime)]);
}

#[test]
fn dday_basic() {
    let source = "[dday(2020-01-01)]";
    assert_eq!(span_list(source), vec![Span::Macro(MacroSpan::Dday("2020-01-01".to_owned()))]);
}

#[test]
fn footnote_hangul() {
    let source = "[각주]";
    assert_eq!(span_list(source), vec![Span::Macro(MacroSpan::Footnote)]);
}

#[test]
fn footnote_alphabet() {
    let source = "[footnote]";
    assert_eq!(span_list(source), vec![Span::Macro(MacroSpan::Footnote)]);
}

#[test]
fn include_empty() {
    let source = "[include()]";
    assert_eq!(span_list(source), vec![Span::Macro(MacroSpan::Include("".to_owned()))]);
}

#[test]
fn include_namespace() {
    let source = "[include(foo)]";
    assert_eq!(span_list(source), vec![Span::Macro(MacroSpan::Include("foo".to_owned()))]);
}

#[test]
fn latex_basic() {
    let source = "[math(Danuel)]";
    assert_eq!(span_list(source), vec![Span::Macro(MacroSpan::Latex("Danuel".to_owned()))]);
}

#[test]
fn linebreak() {
    let source = "[br]";
    assert_eq!(span_list(source), vec![Span::Macro(MacroSpan::Linebreak)]);
}

#[test]
fn pagecount() {
    let source = "[pagecount]";
    assert_eq!(span_list(source), vec![Span::Macro(MacroSpan::PageCount(None))]);
}

#[test]
fn pagecount_with_namespace() {
    let source = "[pagecount(file)]";
    assert_eq!(
        span_list(source),
        vec![Span::Macro(MacroSpan::PageCount(Some("file".to_owned())))]
    );
}

#[test]
fn ruby_a_text() {
    let source = "[ruby(foo, ruby=bar)]";
    assert_eq!(
        span_list(source),
        vec![Span::Macro(MacroSpan::Ruby(Some((
            "foo".to_owned(),
            RubyOption { text: "bar".to_owned(), ..Default::default() }
        ))))]
    );
}

#[test]
fn a_text_with_color() {
    let source = "[ruby(foo, ruby=bar, color=#000000)]";
    assert_eq!(
        span_list(source),
        vec![Span::Macro(MacroSpan::Ruby(Some((
            "foo".to_owned(),
            RubyOption { text: "bar".to_owned(), color: Color::Hex(0, 0, 0) }
        ))))]
    );
}

#[test]
fn table_of_contents_hangul() {
    let source = "[목차]";
    assert_eq!(span_list(source), vec![Span::Macro(MacroSpan::TableOfContents)]);
}

#[test]
fn table_of_contents_alphabet() {
    let source = "[tableofcontents]";
    assert_eq!(span_list(source), vec![Span::Macro(MacroSpan::TableOfContents)]);
}
