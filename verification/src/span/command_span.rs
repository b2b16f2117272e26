//! Spans written as `[[ ... ]]`: links, images, videos and categories.

use vstd::prelude::*;
use crate::span::{parse_spans, span_list_of, spans_view, Span, SpanModel};
use crate::text::{
    find_char, find_str, head, key_value, lemma_find_char, lemma_find_str, matches_at, position_of,
    position_of_char, split_key_value, starts_with, string_of, tail,
};
use crate::utils::{pipeline, strip_one};
use crate::value::{
    alignment, alignment_of, color, color_of, is_word, number, number_of, size, size_of, Alignment,
    Color, ColorModel, Size, SizeModel,
};

verus! {

/// What stands between `[[` and `]]`.
#[derive(Debug, PartialEq, Eq)]
pub enum CommandSpan {
    Category(String),
    Image(String, ImageOption),
    /// The spans shown for the link, then its target.
    Link(Vec<Span>, String),
    Video(String, VideoOption),
}

/// How an image is shown.
#[derive(Debug, PartialEq, Eq)]
pub struct ImageOption {
    pub width: Size,
    pub height: Size,
    pub align: Alignment,
    pub background_color: Color,
}

/// How a video is shown, and where it plays.
#[derive(Debug, PartialEq, Eq)]
pub struct VideoOption {
    pub platform: VideoPlatform,
    pub width: Size,
    pub height: Size,
    pub start: u32,
    pub end: u32,
}

/// The service that hosts a video.
#[derive(Debug, PartialEq, Eq, Clone, Copy, Structural)]
pub enum VideoPlatform {
    Youtube,
    KakaoTv,
    NicoVideo,
}

/// What a `CommandSpan` holds, as a mathematical value.
pub enum CommandSpanModel {
    Category(Seq<char>),
    Image(Seq<char>, ImageOptionModel),
    Link(Seq<SpanModel>, Seq<char>),
    Video(Seq<char>, VideoOptionModel),
}

/// What an `ImageOption` holds, as a mathematical value.
pub struct ImageOptionModel {
    pub width: SizeModel,
    pub height: SizeModel,
    pub align: Alignment,
    pub background_color: ColorModel,
}

/// What a `VideoOption` holds, as a mathematical value.
pub struct VideoOptionModel {
    pub platform: VideoPlatform,
    pub width: SizeModel,
    pub height: SizeModel,
    pub start: u32,
    pub end: u32,
}

impl ImageOption {
    pub open spec fn view(&self) -> ImageOptionModel {
        ImageOptionModel {
            width: self.width.view(),
            height: self.height.view(),
            align: self.align,
            background_color: self.background_color.view(),
        }
    }
}

impl ImageOptionModel {
    /// The options of an image that names none.
    pub open spec fn default() -> ImageOptionModel {
        ImageOptionModel {
            width: SizeModel::Auto,
            height: SizeModel::Auto,
            align: Alignment::Auto,
            background_color: ColorModel::Hex(0, 0, 0),
        }
    }
}

impl VideoOption {
    pub open spec fn view(&self) -> VideoOptionModel {
        VideoOptionModel {
            platform: self.platform,
            width: self.width.view(),
            height: self.height.view(),
            start: self.start,
            end: self.end,
        }
    }
}

impl VideoOptionModel {
    /// The options of a video on `platform` that names none.
    pub open spec fn of_platform(platform: VideoPlatform) -> VideoOptionModel {
        VideoOptionModel {
            platform,
            width: SizeModel::Auto,
            height: SizeModel::Auto,
            start: 0,
            end: 0,
        }
    }
}

impl CommandSpan {
    pub open spec fn view(&self) -> CommandSpanModel
        decreases self,
    {
        match self {
            CommandSpan::Category(name) => CommandSpanModel::Category(name@),
            CommandSpan::Image(url, option) => CommandSpanModel::Image(url@, option.view()),
            CommandSpan::Link(spans, target) => CommandSpanModel::Link(
                spans_view(spans@),
                target@,
            ),
            CommandSpan::Video(url, option) => CommandSpanModel::Video(url@, option.view()),
        }
    }
}

impl Default for VideoPlatform {
    fn default() -> (platform: VideoPlatform)
        ensures
            platform == VideoPlatform::Youtube,
    {
        VideoPlatform::Youtube
    }
}

impl Default for ImageOption {
    fn default() -> (option: ImageOption)
        ensures
            option.view() == ImageOptionModel::default(),
    {
        ImageOption {
            width: Size::Auto,
            height: Size::Auto,
            align: Alignment::Auto,
            background_color: Color::Hex(0, 0, 0),
        }
    }
}

impl Default for VideoOption {
    fn default() -> (option: VideoOption)
        ensures
            option.view() == VideoOptionModel::of_platform(VideoPlatform::Youtube),
    {
        VideoOption {
            platform: VideoPlatform::Youtube,
            width: Size::Auto,
            height: Size::Auto,
            start: 0,
            end: 0,
        }
    }
}

/// How many characters the command span at the start of `s` takes, if there is one:
/// from `[[` to the end of the first `]]` after it.
pub open spec fn command_len(s: Seq<char>) -> Option<int> {
    if starts_with(s, "[["@) {
        match find_str(s, "]]"@, 2) {
            Some(close) => Some(close + 2),
            None => None,
        }
    } else {
        None
    }
}

/// A command span takes at least its two markers, and no more than `s` holds.
pub proof fn lemma_command_len(s: Seq<char>)
    ensures
        match command_len(s) {
            Some(n) => 4 <= n <= s.len(),
            None => true,
        },
{
    reveal_strlit("]]");
    lemma_find_str(s, "]]"@, 2);
}

/// The options after one more token of an image: `width`, `height`, `align` and
/// `background_color` set their field, any other token changes nothing.
pub open spec fn image_option_with(option: ImageOptionModel, token: Seq<char>) -> ImageOptionModel {
    match key_value(token) {
        Some((key, value)) => if key == "width"@ {
            ImageOptionModel { width: size_of(value), ..option }
        } else if key == "height"@ {
            ImageOptionModel { height: size_of(value), ..option }
        } else if key == "align"@ {
            ImageOptionModel { align: alignment_of(value), ..option }
        } else if key == "background_color"@ {
            ImageOptionModel { background_color: color_of(value), ..option }
        } else {
            option
        },
        None => option,
    }
}

/// The first position at or after `i` that holds `|` or `&`, or `s.len()`.
pub open spec fn image_token_end(s: Seq<char>, i: int) -> int
    decreases s.len() - i,
{
    if i < 0 || i >= s.len() {
        s.len() as int
    } else if s[i] == '|' || s[i] == '&' {
        i
    } else {
        image_token_end(s, i + 1)
    }
}

/// A token ends at or after the position it was asked for, inside `s`.
pub proof fn lemma_image_token_end(s: Seq<char>, i: int)
    requires
        0 <= i <= s.len(),
    ensures
        i <= image_token_end(s, i) <= s.len(),
    decreases s.len() - i,
{
    if i < s.len() && !(s[i] == '|' || s[i] == '&') {
        lemma_image_token_end(s, i + 1);
    }
}

/// The options after the tokens of `s` from position `i` on; `|` and `&` part the
/// tokens.
pub open spec fn image_option_from(s: Seq<char>, i: int, option: ImageOptionModel) -> ImageOptionModel
    decreases s.len() - i,
{
    if i < 0 || i > s.len() {
        option
    } else {
        let end = image_token_end(s, i);
        let next = image_option_with(option, s.subrange(i, end));
        proof {
            lemma_image_token_end(s, i);
        }
        if end >= s.len() {
            next
        } else {
            image_option_from(s, end + 1, next)
        }
    }
}

/// The options that the text after an image's address gives. A later token wins over
/// an earlier one with the same key.
pub open spec fn image_option_of(s: Seq<char>) -> ImageOptionModel {
    image_option_from(s, 0, ImageOptionModel::default())
}

/// The options after one more token of a video: `width`, `height`, `start` and `end`
/// set their field; a `start` or `end` that is no number changes nothing.
pub open spec fn video_option_with(option: VideoOptionModel, token: Seq<char>) -> VideoOptionModel {
    match key_value(token) {
        Some((key, value)) => if key == "width"@ {
            VideoOptionModel { width: size_of(value), ..option }
        } else if key == "height"@ {
            VideoOptionModel { height: size_of(value), ..option }
        } else if key == "start"@ {
            match number_of(value) {
                Some(n) => VideoOptionModel { start: n, ..option },
                None => option,
            }
        } else if key == "end"@ {
            match number_of(value) {
                Some(n) => VideoOptionModel { end: n, ..option },
                None => option,
            }
        } else {
            option
        },
        None => option,
    }
}

/// The options after the tokens of `s` from position `i` on; `,` parts the tokens.
pub open spec fn video_option_from(s: Seq<char>, i: int, option: VideoOptionModel) -> VideoOptionModel
    decreases s.len() - i,
{
    if i < 0 || i > s.len() {
        option
    } else {
        let end = find_char(s, ',', i);
        let next = video_option_with(option, s.subrange(i, end));
        proof {
            lemma_find_char(s, ',', i);
        }
        if end >= s.len() {
            next
        } else {
            video_option_from(s, end + 1, next)
        }
    }
}

/// The platform that a video command names, with the length of the name.
pub open spec fn video_platform(c: Seq<char>) -> Option<(VideoPlatform, int)> {
    if starts_with(c, "youtube"@) {
        Some((VideoPlatform::Youtube, "youtube"@.len() as int))
    } else if starts_with(c, "kakaotv"@) {
        Some((VideoPlatform::KakaoTv, "kakaotv"@.len() as int))
    } else if starts_with(c, "nicovideo"@) {
        Some((VideoPlatform::NicoVideo, "nicovideo"@.len() as int))
    } else {
        None
    }
}

/// What stands between the parentheses of a video command: the platform's name, `(`,
/// then everything up to the first `)`, which must be there.
pub open spec fn video_argument(c: Seq<char>) -> Option<(VideoPlatform, Seq<char>)> {
    match video_platform(c) {
        Some((platform, name)) => {
            let close = find_char(c, ')', name + 1);
            if name < c.len() && c[name] == '(' && close < c.len() {
                Some((platform, c.subrange(name + 1, close)))
            } else {
                None
            }
        },
        None => None,
    }
}

/// The video that an argument gives: its address up to the first `,`, and the options
/// that the tokens after it set.
pub open spec fn video_of(platform: VideoPlatform, argument: Seq<char>) -> CommandSpanModel {
    let end = find_char(argument, ',', 0);
    CommandSpanModel::Video(
        argument.take(end),
        video_option_from(argument, end, VideoOptionModel::of_platform(platform)),
    )
}

/// The image that the text after `파일:` gives: its address up to the first `|`, and
/// the options that the tokens after that `|` set.
pub open spec fn image_of(rest: Seq<char>) -> CommandSpanModel {
    let end = find_char(rest, '|', 0);
    CommandSpanModel::Image(rest.take(end), image_option_of(strip_one(rest.skip(end), '|')))
}

/// The command that the content `c` of `[[ ... ]]` writes, where it is an image, a
/// video or a category; every other content is a link.
pub open spec fn simple_command(c: Seq<char>) -> Option<CommandSpanModel> {
    if starts_with(c, "파일:"@) {
        Some(image_of(c.skip("파일:"@.len() as int)))
    } else {
        match video_argument(c) {
            Some((platform, argument)) => Some(video_of(platform, argument)),
            None => if starts_with(c, "분류:"@) {
                Some(CommandSpanModel::Category(c.skip("분류:"@.len() as int)))
            } else {
                None
            },
        }
    }
}

/// The target of a link: the content up to its first `|`.
pub open spec fn link_target(c: Seq<char>) -> Seq<char> {
    c.take(find_char(c, '|', 0))
}

/// The text shown for a link: what follows the first `|` of the content.
pub open spec fn link_display(c: Seq<char>) -> Seq<char> {
    strip_one(c.skip(find_char(c, '|', 0)), '|')
}

/// Applies one token to the options of an image.
fn image_token(option: ImageOption, token: &[char]) -> (next: ImageOption)
    ensures
        next.view() == image_option_with(option.view(), token@),
{
    let mut option = option;
    match split_key_value(token) {
        Some((key, value)) => {
            if is_word(key, "width") {
                option.width = size(value);
            } else if is_word(key, "height") {
                option.height = size(value);
            } else if is_word(key, "align") {
                option.align = alignment(value);
            } else if is_word(key, "background_color") {
                option.background_color = color(value);
            }
        },
        None => {},
    }
    option
}

/// The position where the token that begins at `from` ends.
fn image_token_stop(input: &[char], from: usize) -> (end: usize)
    requires
        from <= input@.len(),
    ensures
        end == image_token_end(input@, from as int),
        from <= end <= input@.len(),
{
    let mut end: usize = from;
    while end < input.len() && input[end] != '|' && input[end] != '&'
        invariant
            from <= end <= input@.len(),
            image_token_end(input@, end as int) == image_token_end(input@, from as int),
        decreases input@.len() - end,
    {
        end = end + 1;
    }
    end
}

/// Reads the options of an image from the text after its address.
pub fn option(input: &[char]) -> (option: ImageOption)
    ensures
        option.view() == image_option_of(input@),
{
    let mut option = ImageOption::default();
    let mut i: usize = 0;
    loop
        invariant
            i <= input@.len(),
            image_option_from(input@, i as int, option.view()) == image_option_of(input@),
        decreases input@.len() - i,
    {
        let end = image_token_stop(input, i);
        option = image_token(option, &input[i..end]);
        if end >= input.len() {
            return option;
        }
        i = end + 1;
    }
}

/// Applies one token to the options of a video.
fn video_token(option: VideoOption, token: &[char]) -> (next: VideoOption)
    ensures
        next.view() == video_option_with(option.view(), token@),
{
    let mut option = option;
    match split_key_value(token) {
        Some((key, value)) => {
            if is_word(key, "width") {
                option.width = size(value);
            } else if is_word(key, "height") {
                option.height = size(value);
            } else if is_word(key, "start") {
                match number(value) {
                    Some(n) => {
                        option.start = n;
                    },
                    None => {},
                }
            } else if is_word(key, "end") {
                match number(value) {
                    Some(n) => {
                        option.end = n;
                    },
                    None => {},
                }
            }
        },
        None => {},
    }
    option
}

/// Reads the argument of a video command: the address, then the options.
pub fn center(input: &[char], platform: VideoPlatform) -> (r: (String, VideoOption))
    ensures
        CommandSpanModel::Video(r.0@, r.1.view()) == video_of(platform, input@),
{
    let url_end = position_of_char(input, ',', 0);
    let url = string_of(head(input, url_end));
    let mut option = VideoOption {
        platform,
        width: Size::Auto,
        height: Size::Auto,
        start: 0,
        end: 0,
    };
    let mut i: usize = url_end;
    loop
        invariant
            i <= input@.len(),
            url_end == find_char(input@, ',', 0),
            url@ == input@.take(url_end as int),
            video_option_from(input@, i as int, option.view()) == video_option_from(
                input@,
                url_end as int,
                VideoOptionModel::of_platform(platform),
            ),
        decreases input@.len() - i,
    {
        let end = position_of_char(input, ',', i);
        option = video_token(option, &input[i..end]);
        if end >= input.len() {
            return (url, option);
        }
        i = end + 1;
    }
}

/// Reads the platform's name and the `(` at the start of a video command, and finds
/// the `)` that ends its argument. Returns the platform and the argument.
pub fn identifier<'a>(input: &'a [char]) -> (r: Option<(VideoPlatform, &'a [char])>)
    ensures
        match r {
            Some((platform, argument)) => video_argument(input@) == Some((platform, argument@)),
            None => video_argument(input@) is None,
        },
{
    proof {
        reveal_strlit("youtube");
        reveal_strlit("kakaotv");
        reveal_strlit("nicovideo");
    }
    let (platform, name): (VideoPlatform, usize) = if matches_at(input, 0, "youtube") {
        (VideoPlatform::Youtube, 7)
    } else if matches_at(input, 0, "kakaotv") {
        (VideoPlatform::KakaoTv, 7)
    } else if matches_at(input, 0, "nicovideo") {
        (VideoPlatform::NicoVideo, 9)
    } else {
        return None;
    };
    if name < input.len() && input[name] == '(' {
        let close = position_of_char(input, ')', name + 1);
        if close < input.len() {
            return Some((platform, &input[name + 1..close]));
        }
    }
    None
}

/// Reads an image from the text after `파일:`.
pub fn image(rest: &[char]) -> (span: CommandSpan)
    ensures
        span.view() == image_of(rest@),
{
    let end = position_of_char(rest, '|', 0);
    let url = string_of(head(rest, end));
    let option = option(pipeline(tail(rest, end)));
    CommandSpan::Image(url, option)
}

/// Reads the content of `[[ ... ]]` where it is an image, a video or a category.
pub fn simple_command_span(content: &[char]) -> (r: Option<CommandSpan>)
    ensures
        match r {
            Some(span) => simple_command(content@) == Some(span.view()),
            None => simple_command(content@) is None,
        },
{
    proof {
        reveal_strlit("파일:");
        reveal_strlit("분류:");
    }
    if matches_at(content, 0, "파일:") {
        return Some(image(tail(content, 3)));
    }
    match identifier(content) {
        Some((platform, argument)) => {
            let (url, option) = center(argument, platform);
            return Some(CommandSpan::Video(url, option));
        },
        None => {},
    }
    if matches_at(content, 0, "분류:") {
        return Some(CommandSpan::Category(string_of(tail(content, 3))));
    }
    None
}

/// What a link shows is no longer than the link's content.
pub proof fn lemma_link_display(c: Seq<char>)
    ensures
        link_display(c).len() <= c.len(),
{
    lemma_find_char(c, '|', 0);
}

/// The command that the content `c` of `[[ ... ]]` writes: an image, a video, a
/// category, or a link with its target and the spans shown for it.
pub open spec fn command_of(c: Seq<char>) -> CommandSpanModel
    decreases c.len(), 3int,
{
    match simple_command(c) {
        Some(command) => command,
        None => {
            proof {
                lemma_link_display(c);
            }
            CommandSpanModel::Link(span_list_of(link_display(c)), link_target(c))
        },
    }
}

/// Reads the content of `[[ ... ]]` as a link.
pub fn link(content: &[char]) -> (span: CommandSpan)
    ensures
        span.view() == CommandSpanModel::Link(
            span_list_of(link_display(content@)),
            link_target(content@),
        ),
    decreases content@.len(), 3int,
{
    let end = position_of_char(content, '|', 0);
    let target = string_of(head(content, end));
    CommandSpan::Link(parse_spans(pipeline(tail(content, end))), target)
}

/// Reads the command span at the start of `input`, and returns what follows it with
/// the span. `None` where `input` does not begin with `[[`, or no `]]` follows.
pub fn command_span<'a>(input: &'a [char]) -> (r: Option<(&'a [char], CommandSpan)>)
    ensures
        match r {
            Some((rest, span)) => command_len(input@) is Some && rest@ == input@.skip(
                command_len(input@)->0,
            ) && span.view() == command_of(input@.subrange(2, command_len(input@)->0 - 2))
                && rest@.len() < input@.len(),
            None => command_len(input@) is None,
        },
    decreases input@.len(), 0int,
{
    proof {
        reveal_strlit("[[");
        reveal_strlit("]]");
    }
    if !matches_at(input, 0, "[[") {
        return None;
    }
    match position_of(input, "]]", 2) {
        Some(close) => {
            let content = &input[2..close];
            let span = match simple_command_span(content) {
                Some(span) => span,
                None => link(content),
            };
            Some((tail(input, close + 2), span))
        },
        None => None,
    }
}

} // verus!
