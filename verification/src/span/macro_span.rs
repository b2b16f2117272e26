//! Spans written as `[ ... ]`: macros.

use vstd::prelude::*;
use crate::span::{parse_spans, span_list_of, spans_view, Span, SpanModel};
use crate::text::{
    find_char, head, key_value, lemma_find_char, matches_at, position_of_char, split_key_value,
    starts_with, string_of, tail, trim, trimmed,
};
use crate::utils::{line, line_content, slice_by, strip_one, whitespace};
use crate::value::{color, color_of, is_word, Color, ColorModel};

verus! {

/// What stands between `[` and `]`.
#[derive(Debug, PartialEq, Eq)]
pub enum MacroSpan {
    Age(String),
    Anchor(String),
    /// The spans of the note, then its label.
    Comment(Vec<Span>, String),
    Date,
    Datetime,
    Dday(String),
    Footnote,
    Include(String),
    Latex(String),
    Linebreak,
    PageCount(Option<String>),
    Ruby(Option<(String, RubyOption)>),
    TableOfContents,
}

/// The small text set above a word, and its colour.
#[derive(Debug, PartialEq, Eq)]
pub struct RubyOption {
    pub color: Color,
    pub text: String,
}

/// What a `MacroSpan` holds, as a mathematical value.
pub enum MacroSpanModel {
    Age(Seq<char>),
    Anchor(Seq<char>),
    Comment(Seq<SpanModel>, Seq<char>),
    Date,
    Datetime,
    Dday(Seq<char>),
    Footnote,
    Include(Seq<char>),
    Latex(Seq<char>),
    Linebreak,
    PageCount(Option<Seq<char>>),
    Ruby(Option<(Seq<char>, RubyOptionModel)>),
    TableOfContents,
}

/// What a `RubyOption` holds, as a mathematical value.
pub struct RubyOptionModel {
    pub color: ColorModel,
    pub text: Seq<char>,
}

impl RubyOption {
    pub open spec fn view(&self) -> RubyOptionModel {
        RubyOptionModel { color: self.color.view(), text: self.text@ }
    }
}

impl RubyOptionModel {
    /// The options of a ruby that names none.
    pub open spec fn default() -> RubyOptionModel {
        RubyOptionModel { color: ColorModel::Hex(0, 0, 0), text: Seq::empty() }
    }
}

impl MacroSpan {
    pub open spec fn view(&self) -> MacroSpanModel
        decreases self,
    {
        match self {
            MacroSpan::Age(date) => MacroSpanModel::Age(date@),
            MacroSpan::Anchor(name) => MacroSpanModel::Anchor(name@),
            MacroSpan::Comment(spans, label) => MacroSpanModel::Comment(
                spans_view(spans@),
                label@,
            ),
            MacroSpan::Date => MacroSpanModel::Date,
            MacroSpan::Datetime => MacroSpanModel::Datetime,
            MacroSpan::Dday(date) => MacroSpanModel::Dday(date@),
            MacroSpan::Footnote => MacroSpanModel::Footnote,
            MacroSpan::Include(name) => MacroSpanModel::Include(name@),
            MacroSpan::Latex(formula) => MacroSpanModel::Latex(formula@),
            MacroSpan::Linebreak => MacroSpanModel::Linebreak,
            MacroSpan::PageCount(namespace) => MacroSpanModel::PageCount(
                match namespace {
                    Some(name) => Some(name@),
                    None => None,
                },
            ),
            MacroSpan::Ruby(ruby) => MacroSpanModel::Ruby(
                match ruby {
                    Some((word, option)) => Some((word@, option.view())),
                    None => None,
                },
            ),
            MacroSpan::TableOfContents => MacroSpanModel::TableOfContents,
        }
    }
}

impl Default for RubyOption {
    fn default() -> (option: RubyOption)
        ensures
            option.view() == RubyOptionModel::default(),
    {
        RubyOption { color: Color::Hex(0, 0, 0), text: String::new() }
    }
}

/// What stands between the parentheses of `name(...)`: `c` begins with `name` and `(`,
/// and its first `)` is its last character.
pub open spec fn call_argument(c: Seq<char>, name: Seq<char>) -> Option<Seq<char>> {
    let open = name.len() as int;
    if starts_with(c, name) && open < c.len() && c[open] == '(' && find_char(c, ')', open + 1)
        == c.len() - 1 {
        Some(c.subrange(open + 1, c.len() - 1))
    } else {
        None
    }
}

/// The options after one more token of a ruby: `ruby` sets the text and `color` the
/// colour, any other token changes nothing. White space around the key and the value
/// does not count.
pub open spec fn ruby_option_with(option: RubyOptionModel, token: Seq<char>) -> RubyOptionModel {
    match key_value(token) {
        Some((key, value)) => if trim(key) == "ruby"@ {
            RubyOptionModel { text: trim(value), ..option }
        } else if trim(key) == "color"@ {
            RubyOptionModel { color: color_of(trim(value)), ..option }
        } else {
            option
        },
        None => option,
    }
}

/// The options after the tokens of `s` from position `i` on; `,` parts the tokens.
pub open spec fn ruby_option_from(s: Seq<char>, i: int, option: RubyOptionModel) -> RubyOptionModel
    decreases s.len() - i,
{
    if i < 0 || i > s.len() {
        option
    } else {
        let end = find_char(s, ',', i);
        let next = ruby_option_with(option, s.subrange(i, end));
        proof {
            lemma_find_char(s, ',', i);
        }
        if end >= s.len() {
            next
        } else {
            ruby_option_from(s, end + 1, next)
        }
    }
}

/// The options that the text after a ruby's word gives.
pub open spec fn ruby_option_of(s: Seq<char>) -> RubyOptionModel {
    ruby_option_from(s, 0, RubyOptionModel::default())
}

/// The word of a ruby: its argument up to the first `,`.
pub open spec fn ruby_word(argument: Seq<char>) -> Seq<char> {
    argument.take(find_char(argument, ',', 0))
}

/// The ruby that an argument gives: the word, and the options that follow its `,`.
pub open spec fn ruby_of(argument: Seq<char>) -> MacroSpanModel {
    let end = find_char(argument, ',', 0);
    MacroSpanModel::Ruby(
        Some((ruby_word(argument), ruby_option_of(strip_one(argument.skip(end), ',')))),
    )
}

/// The name that an `include` argument gives: the argument up to its first `,`.
pub open spec fn include_name(argument: Seq<char>) -> Seq<char> {
    argument.take(find_char(argument, ',', 0))
}

/// The macro that the content `c` of `[ ... ]` writes, for every macro but the note.
/// The macros are tried in a fixed order.
pub open spec fn simple_macro(c: Seq<char>) -> Option<MacroSpanModel> {
    if c == "각주"@ || c == "footnote"@ {
        Some(MacroSpanModel::Footnote)
    } else if c == "br"@ {
        Some(MacroSpanModel::Linebreak)
    } else if c == "date"@ {
        Some(MacroSpanModel::Date)
    } else if c == "datetime"@ {
        Some(MacroSpanModel::Datetime)
    } else if starts_with(c, "pagecount"@) {
        Some(MacroSpanModel::PageCount(call_argument(c, "pagecount"@)))
    } else if call_argument(c, "include"@) is Some {
        Some(MacroSpanModel::Include(include_name(call_argument(c, "include"@)->0)))
    } else if c == "목차"@ || c == "tableofcontents"@ {
        Some(MacroSpanModel::TableOfContents)
    } else if call_argument(c, "anchor"@) is Some {
        Some(MacroSpanModel::Anchor(call_argument(c, "anchor"@)->0))
    } else if call_argument(c, "math"@) is Some {
        Some(MacroSpanModel::Latex(call_argument(c, "math"@)->0))
    } else if call_argument(c, "age"@) is Some {
        Some(MacroSpanModel::Age(call_argument(c, "age"@)->0))
    } else if call_argument(c, "dday"@) is Some {
        Some(MacroSpanModel::Dday(call_argument(c, "dday"@)->0))
    } else if call_argument(c, "ruby"@) is Some {
        Some(ruby_of(call_argument(c, "ruby"@)->0))
    } else {
        None
    }
}

/// The content `c` of `[ ... ]` writes a note: it begins with `*`.
pub open spec fn is_note(c: Seq<char>) -> bool {
    c.len() > 0 && c[0] == '*'
}

/// The label of a note: what stands between `*` and the first space, or nothing where
/// no space follows.
pub open spec fn note_label(c: Seq<char>) -> Seq<char> {
    let after = c.skip(1);
    let space = find_char(after, ' ', 0);
    if space < after.len() {
        after.take(space)
    } else {
        Seq::empty()
    }
}

/// The text of a note: what follows the label, without one leading space.
pub open spec fn note_body(c: Seq<char>) -> Seq<char> {
    let after = c.skip(1);
    let space = find_char(after, ' ', 0);
    strip_one(
        if space < after.len() {
            after.skip(space)
        } else {
            after
        },
        ' ',
    )
}

/// The content `c` of `[ ... ]` writes some macro.
pub open spec fn macro_applies(c: Seq<char>) -> bool {
    simple_macro(c) is Some || is_note(c)
}

/// The content of the macro span at the start of `s`: `s` begins with `[`, a `]`
/// follows, and what stands between them writes a macro.
pub open spec fn macro_content(s: Seq<char>) -> Option<Seq<char>> {
    let close = find_char(s, ']', 1);
    if s.len() > 0 && s[0] == '[' && close < s.len() && macro_applies(s.subrange(1, close)) {
        Some(s.subrange(1, close))
    } else {
        None
    }
}

/// How many characters the macro span at the start of `s` takes, if there is one.
pub open spec fn macro_len(s: Seq<char>) -> Option<int> {
    match macro_content(s) {
        Some(c) => Some(c.len() as int + 2),
        None => None,
    }
}

/// A macro span takes at least its two brackets, and no more than `s` holds.
pub proof fn lemma_macro_len(s: Seq<char>)
    ensures
        match macro_len(s) {
            Some(n) => 2 <= n <= s.len(),
            None => true,
        },
{
    if s.len() > 0 {
        lemma_find_char(s, ']', 1);
    }
}

/// The note's text is shorter than the note.
pub proof fn lemma_note_body(c: Seq<char>)
    requires
        is_note(c),
    ensures
        note_body(c).len() < c.len(),
{
    lemma_find_char(c.skip(1), ' ', 0);
}

/// Reads the argument of `name(...)`.
pub fn argument<'a>(input: &'a [char], name: &str) -> (r: Option<&'a [char]>)
    ensures
        match r {
            Some(inside) => call_argument(input@, name@) == Some(inside@),
            None => call_argument(input@, name@) is None,
        },
{
    if !matches_at(input, 0, name) {
        return None;
    }
    let open = name.unicode_len();
    if open < input.len() && input[open] == '(' && position_of_char(input, ')', open + 1)
        == input.len() - 1 {
        Some(&input[open + 1..input.len() - 1])
    } else {
        None
    }
}

/// Applies one token to the options of a ruby.
fn ruby_token(option: RubyOption, token: &[char]) -> (next: RubyOption)
    ensures
        next.view() == ruby_option_with(option.view(), token@),
{
    let mut option = option;
    match split_key_value(token) {
        Some((key, value)) => {
            let key = trimmed(key);
            if is_word(key, "ruby") {
                option.text = string_of(trimmed(value));
            } else if is_word(key, "color") {
                option.color = color(trimmed(value));
            }
        },
        None => {},
    }
    option
}

/// Reads the options of a ruby from the text after its word.
pub fn ruby_option(input: &[char]) -> (option: RubyOption)
    ensures
        option.view() == ruby_option_of(input@),
{
    let mut option = RubyOption::default();
    let mut i: usize = 0;
    loop
        invariant
            i <= input@.len(),
            ruby_option_from(input@, i as int, option.view()) == ruby_option_of(input@),
        decreases input@.len() - i,
    {
        let end = position_of_char(input, ',', i);
        option = ruby_token(option, &input[i..end]);
        if end >= input.len() {
            return option;
        }
        i = end + 1;
    }
}

/// Splits the argument of a ruby into what follows the word and the word.
pub fn word<'a>(input: &'a [char]) -> (r: (&'a [char], &'a [char]))
    ensures
        r.0@ == strip_one(input@.skip(find_char(input@, ',', 0)), ','),
        r.1@ == ruby_word(input@),
{
    let end = position_of_char(input, ',', 0);
    (slice_by(tail(input, end), ','), head(input, end))
}

/// Reads a ruby from its argument.
pub fn ruby(input: &[char]) -> (span: MacroSpan)
    ensures
        span.view() == ruby_of(input@),
{
    let (rest, word) = word(input);
    MacroSpan::Ruby(Some((string_of(word), ruby_option(rest))))
}

/// Reads the name of an `include` from its argument.
pub fn namespace<'a>(input: &'a [char]) -> (name: &'a [char])
    ensures
        name@ == include_name(input@),
{
    head(input, position_of_char(input, ',', 0))
}

/// Reads the content of `[ ... ]` where it is any macro but the note.
pub fn simple_macro_span(content: &[char]) -> (r: Option<MacroSpan>)
    ensures
        match r {
            Some(span) => simple_macro(content@) == Some(span.view()),
            None => simple_macro(content@) is None,
        },
{
    if is_word(content, "각주") || is_word(content, "footnote") {
        return Some(MacroSpan::Footnote);
    }
    if is_word(content, "br") {
        return Some(MacroSpan::Linebreak);
    }
    if is_word(content, "date") {
        return Some(MacroSpan::Date);
    }
    if is_word(content, "datetime") {
        return Some(MacroSpan::Datetime);
    }
    if matches_at(content, 0, "pagecount") {
        return Some(
            MacroSpan::PageCount(
                match argument(content, "pagecount") {
                    Some(name) => Some(string_of(name)),
                    None => None,
                },
            ),
        );
    }
    match argument(content, "include") {
        Some(inside) => {
            return Some(MacroSpan::Include(string_of(namespace(inside))));
        },
        None => {},
    }
    if is_word(content, "목차") || is_word(content, "tableofcontents") {
        return Some(MacroSpan::TableOfContents);
    }
    match argument(content, "anchor") {
        Some(inside) => {
            return Some(MacroSpan::Anchor(string_of(inside)));
        },
        None => {},
    }
    match argument(content, "math") {
        Some(inside) => {
            return Some(MacroSpan::Latex(string_of(inside)));
        },
        None => {},
    }
    match argument(content, "age") {
        Some(inside) => {
            return Some(MacroSpan::Age(string_of(inside)));
        },
        None => {},
    }
    match argument(content, "dday") {
        Some(inside) => {
            return Some(MacroSpan::Dday(string_of(inside)));
        },
        None => {},
    }
    match argument(content, "ruby") {
        Some(inside) => {
            return Some(ruby(inside));
        },
        None => {},
    }
    None
}

/// Splits what follows the `*` of a note at its first space: returns the text from
/// the space on, and the label before it. `None` where there is no space.
pub fn description<'a>(input: &'a [char]) -> (r: Option<(&'a [char], &'a [char])>)
    ensures
        match r {
            Some((rest, label)) => find_char(input@, ' ', 0) < input@.len() && rest@
                == input@.skip(find_char(input@, ' ', 0)) && label@ == input@.take(
                find_char(input@, ' ', 0),
            ),
            None => find_char(input@, ' ', 0) == input@.len(),
        },
{
    let space = position_of_char(input, ' ', 0);
    if space < input.len() {
        Some((tail(input, space), head(input, space)))
    } else {
        None
    }
}

/// Finds the content of the macro span that `input` begins with: what stands between
/// `[` and the first `]`, where that writes a macro.
pub fn macro_brackets<'a>(input: &'a [char]) -> (r: Option<&'a [char]>)
    ensures
        match r {
            Some(content) => macro_content(input@) == Some(content@) && content.len() + 2
                <= input.len(),
            None => macro_content(input@) is None,
        },
{
    if input.len() == 0 || input[0] != '[' {
        return None;
    }
    let close = position_of_char(input, ']', 1);
    if close >= input.len() {
        return None;
    }
    let content = &input[1..close];
    if simple_macro_span(content).is_some() || (content.len() > 0 && content[0] == '*') {
        Some(content)
    } else {
        None
    }
}

/// Tells whether the first line of `input` begins with a macro span.
pub fn starts_with_macro_span(input: &[char]) -> (b: bool)
    ensures
        b == macro_len(line_content(input@)).is_some(),
{
    let (_, first) = line(input);
    macro_brackets(first).is_some()
}

/// The macro that the content `c` of `[ ... ]` writes: one of the simple macros, or a
/// note with its label and the spans of its text. `None` where `c` writes no macro.
pub open spec fn macro_of(c: Seq<char>) -> Option<MacroSpanModel>
    decreases c.len(), 3int,
{
    match simple_macro(c) {
        Some(m) => Some(m),
        None => if is_note(c) {
            proof {
                lemma_note_body(c);
            }
            Some(MacroSpanModel::Comment(span_list_of(note_body(c)), note_label(c)))
        } else {
            None
        },
    }
}

/// Reads the content of `[ ... ]` as a note. `None` where it does not begin with `*`.
pub fn comment(content: &[char]) -> (r: Option<MacroSpan>)
    ensures
        match r {
            Some(span) => is_note(content@) && span.view() == MacroSpanModel::Comment(
                span_list_of(note_body(content@)),
                note_label(content@),
            ),
            None => !is_note(content@),
        },
    decreases content@.len(), 3int,
{
    if content.len() == 0 || content[0] != '*' {
        return None;
    }
    let after = tail(content, 1);
    let (body, label) = match description(after) {
        Some(parts) => parts,
        None => (after, head(after, 0)),
    };
    proof {
        lemma_find_char(after@, ' ', 0);
        assert(label@ =~= note_label(content@));
    }
    Some(MacroSpan::Comment(parse_spans(whitespace(body)), string_of(label)))
}

/// Reads the macro span at the start of `input`, and returns what follows it with the
/// span. `None` where `input` does not begin with `[`, no `]` follows, or what stands
/// between them writes no macro.
pub fn macro_span<'a>(input: &'a [char]) -> (r: Option<(&'a [char], MacroSpan)>)
    ensures
        match r {
            Some((rest, span)) => macro_content(input@) is Some && rest@ == input@.skip(
                macro_len(input@)->0,
            ) && Some(span.view()) == macro_of(macro_content(input@)->0) && rest@.len()
                < input@.len(),
            None => macro_content(input@) is None,
        },
    decreases input@.len(), 0int,
{
    match macro_brackets(input) {
        Some(content) => {
            let span = match simple_macro_span(content) {
                Some(span) => Some(span),
                None => comment(content),
            };
            match span {
                Some(span) => Some((tail(input, content.len() + 2), span)),
                None => None,
            }
        },
        None => None,
    }
}

} // verus!
