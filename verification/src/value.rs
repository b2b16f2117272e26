//! The values that option tokens stand for: sizes, colours, alignments, font-size levels
//! and plain numbers.

use vstd::prelude::*;
use crate::text::{chars_of, matches_at, string_of, tail};
use crate::utils::strip_one;

verus! {

/// How a piece of content is aligned.
#[derive(Debug, PartialEq, Eq, Clone, Copy, Structural)]
pub enum Alignment {
    Auto,
    Start,
    End,
    Left,
    Center,
    Right,
}

/// A step of font size, from one to five.
#[derive(Debug, PartialEq, Eq, Clone, Copy, Structural)]
pub enum FontSizeLevel {
    One,
    Two,
    Three,
    Four,
    Five,
}

/// A length. Each variant but `Auto` keeps the number as it was written: an optional
/// sign, digits with an optional point, and an optional exponent.
#[derive(Debug, PartialEq, Eq)]
pub enum Size {
    Auto,
    Numeric(String),
    Pixel(String),
    Rem(String),
    Percent(String),
}

/// What a `Size` holds, as a mathematical value.
pub enum SizeModel {
    Auto,
    Numeric(Seq<char>),
    Pixel(Seq<char>),
    Rem(Seq<char>),
    Percent(Seq<char>),
}

/// A colour.
#[derive(Debug, PartialEq, Eq)]
pub enum Color {
    Hex(u8, u8, u8),
    Rgb(u8, u8, u8),
    Hsl(u8, u8, u8),
    Raw(String),
}

/// What a `Color` holds, as a mathematical value.
pub enum ColorModel {
    Hex(u8, u8, u8),
    Rgb(u8, u8, u8),
    Hsl(u8, u8, u8),
    Raw(Seq<char>),
}

impl Size {
    pub open spec fn view(&self) -> SizeModel {
        match self {
            Size::Auto => SizeModel::Auto,
            Size::Numeric(n) => SizeModel::Numeric(n@),
            Size::Pixel(n) => SizeModel::Pixel(n@),
            Size::Rem(n) => SizeModel::Rem(n@),
            Size::Percent(n) => SizeModel::Percent(n@),
        }
    }
}

impl Color {
    pub open spec fn view(&self) -> ColorModel {
        match self {
            Color::Hex(r, g, b) => ColorModel::Hex(*r, *g, *b),
            Color::Rgb(r, g, b) => ColorModel::Rgb(*r, *g, *b),
            Color::Hsl(h, s, l) => ColorModel::Hsl(*h, *s, *l),
            Color::Raw(t) => ColorModel::Raw(t@),
        }
    }
}

impl Default for Size {
    fn default() -> (size: Size)
        ensures
            size.view() == SizeModel::Auto,
    {
        Size::Auto
    }
}

impl Default for Color {
    fn default() -> (color: Color)
        ensures
            color.view() == ColorModel::Hex(0, 0, 0),
    {
        Color::Hex(0, 0, 0)
    }
}

impl Default for Alignment {
    fn default() -> (alignment: Alignment)
        ensures
            alignment == Alignment::Auto,
    {
        Alignment::Auto
    }
}

impl FontSizeLevel {
    /// The number of the level, from 1 to 5.
    pub open spec fn number(&self) -> int {
        match self {
            FontSizeLevel::One => 1,
            FontSizeLevel::Two => 2,
            FontSizeLevel::Three => 3,
            FontSizeLevel::Four => 4,
            FontSizeLevel::Five => 5,
        }
    }

    /// The level with the given number.
    pub fn from(source: usize) -> (level: FontSizeLevel)
        requires
            1 <= source <= 5,
        ensures
            level.number() == source,
    {
        if source == 1 {
            FontSizeLevel::One
        } else if source == 2 {
            FontSizeLevel::Two
        } else if source == 3 {
            FontSizeLevel::Three
        } else if source == 4 {
            FontSizeLevel::Four
        } else {
            FontSizeLevel::Five
        }
    }
}

impl From<&FontSizeLevel> for usize {
    fn from(source: &FontSizeLevel) -> (n: usize) {
        match source {
            FontSizeLevel::One => 1,
            FontSizeLevel::Two => 2,
            FontSizeLevel::Three => 3,
            FontSizeLevel::Four => 4,
            FontSizeLevel::Five => 5,
        }
    }
}

impl vstd::std_specs::convert::FromSpecImpl<&FontSizeLevel> for usize {
    open spec fn obeys_from_spec() -> bool {
        true
    }

    open spec fn from_spec(source: &FontSizeLevel) -> usize {
        source.number() as usize
    }
}

/// What an alignment token stands for: one of five words, or `Auto` for anything else.
pub open spec fn alignment_of(token: Seq<char>) -> Alignment {
    if token == "start"@ {
        Alignment::Start
    } else if token == "end"@ {
        Alignment::End
    } else if token == "left"@ {
        Alignment::Left
    } else if token == "center"@ {
        Alignment::Center
    } else if token == "right"@ {
        Alignment::Right
    } else {
        Alignment::Auto
    }
}

/// Tells whether `input` is exactly the literal `lit`.
pub fn is_word(input: &[char], lit: &str) -> (b: bool)
    ensures
        b == (input@ == lit@),
{
    let b = matches_at(input, 0, lit) && input.len() == lit.unicode_len();
    proof {
        if b {
            assert(input@.subrange(0, input@.len() as int) =~= input@);
        }
        if input@ == lit@ {
            assert(input@.subrange(0, lit@.len() as int) =~= lit@);
        }
    }
    b
}

/// Reads an alignment token.
pub fn alignment(token: &[char]) -> (a: Alignment)
    ensures
        a == alignment_of(token@),
{
    if is_word(token, "start") {
        Alignment::Start
    } else if is_word(token, "end") {
        Alignment::End
    } else if is_word(token, "left") {
        Alignment::Left
    } else if is_word(token, "center") {
        Alignment::Center
    } else if is_word(token, "right") {
        Alignment::Right
    } else {
        Alignment::Auto
    }
}

impl Alignment {
    /// Reads an alignment from its name; an unknown name gives `Auto`.
    pub fn from(source: &str) -> (a: Alignment)
        ensures
            a == alignment_of(source@),
    {
        let chars = chars_of(source);
        alignment(chars.as_slice())
    }
}

/// The value of a hexadecimal digit, if `c` is one.
pub open spec fn hex_value(c: char) -> Option<int> {
    if '0' <= c <= '9' {
        Some(c as int - '0' as int)
    } else if 'a' <= c <= 'f' {
        Some(c as int - 'a' as int + 10)
    } else if 'A' <= c <= 'F' {
        Some(c as int - 'A' as int + 10)
    } else {
        None
    }
}

/// `c` is a hexadecimal digit.
pub open spec fn is_hex_digit(c: char) -> bool {
    hex_value(c) is Some
}

/// The byte that two hexadecimal digits write.
pub open spec fn hex_byte(high: char, low: char) -> u8
    recommends
        is_hex_digit(high),
        is_hex_digit(low),
{
    (hex_value(high)->0 * 16 + hex_value(low)->0) as u8
}

/// `token` is `#` followed by exactly six hexadecimal digits.
pub open spec fn is_hex_color(token: Seq<char>) -> bool {
    &&& token.len() == 7
    &&& token[0] == '#'
    &&& forall|i: int| 1 <= i < 7 ==> is_hex_digit(#[trigger] token[i])
}

/// What a colour token stands for: `#RRGGBB` gives its three bytes, anything else the
/// default, black.
pub open spec fn color_of(token: Seq<char>) -> ColorModel {
    if is_hex_color(token) {
        ColorModel::Hex(
            hex_byte(token[1], token[2]),
            hex_byte(token[3], token[4]),
            hex_byte(token[5], token[6]),
        )
    } else {
        ColorModel::Hex(0, 0, 0)
    }
}

/// The value of a hexadecimal digit.
pub fn hex_digit(c: char) -> (r: Option<u8>)
    ensures
        match r {
            Some(v) => hex_value(c) == Some(v as int) && v < 16,
            None => hex_value(c) is None,
        },
{
    if '0' <= c && c <= '9' {
        Some((c as u32 - '0' as u32) as u8)
    } else if 'a' <= c && c <= 'f' {
        Some((c as u32 - 'a' as u32 + 10) as u8)
    } else if 'A' <= c && c <= 'F' {
        Some((c as u32 - 'A' as u32 + 10) as u8)
    } else {
        None
    }
}

/// The byte that the two hexadecimal digits at `i` and `i + 1` write.
fn hex_pair(token: &[char], i: usize) -> (r: Option<u8>)
    requires
        i + 1 < token@.len(),
    ensures
        match r {
            Some(v) => is_hex_digit(token@[i as int]) && is_hex_digit(token@[i + 1]) && v
                == hex_byte(token@[i as int], token@[i + 1]),
            None => !is_hex_digit(token@[i as int]) || !is_hex_digit(token@[i + 1]),
        },
{
    match hex_digit(token[i]) {
        Some(high) => match hex_digit(token[i + 1]) {
            Some(low) => Some(high * 16 + low),
            None => None,
        },
        None => None,
    }
}

/// Reads a colour token.
pub fn color(token: &[char]) -> (c: Color)
    ensures
        c.view() == color_of(token@),
{
    if token.len() == 7 && token[0] == '#' {
        match hex_pair(token, 1) {
            Some(r) => match hex_pair(token, 3) {
                Some(g) => match hex_pair(token, 5) {
                    Some(b) => {
                        return Color::Hex(r, g, b);
                    },
                    None => {},
                },
                None => {},
            },
            None => {},
        }
    }
    Color::Hex(0, 0, 0)
}

impl Color {
    /// Reads a colour from `#RRGGBB`; any other text gives black.
    pub fn from(source: &str) -> (c: Color)
        ensures
            c.view() == color_of(source@),
    {
        let chars = chars_of(source);
        color(chars.as_slice())
    }
}

/// The number that `recognize_float` of the nom crate finds at the start of `token`, as
/// it is written there; `None` where it finds none.
pub uninterp spec fn float_lexeme(token: Seq<char>) -> Option<Seq<char>>;

/// Finds the number at the start of `token`.
///
/// Calls `nom::number::complete::recognize_float`, which takes an optional sign, digits
/// with an optional point, and an optional exponent, and hands back what it took. The
/// claim is only that the result is that function's result on `token`.
#[verifier::external_body]
fn recognize_float(token: &str) -> (r: Option<String>)
    ensures
        match r {
            Some(lexeme) => float_lexeme(token@) == Some(lexeme@),
            None => float_lexeme(token@) is None,
        },
{
    match nom::number::complete::recognize_float::<&str, nom::error::Error<&str>>(token) {
        Ok((_, lexeme)) => Some(lexeme.to_owned()),
        Err(_) => None,
    }
}

/// What follows the number in a size token.
pub open spec fn size_unit(token: Seq<char>, lexeme: Seq<char>) -> Seq<char> {
    if lexeme.len() <= token.len() {
        token.skip(lexeme.len() as int)
    } else {
        Seq::empty()
    }
}

/// The size that a token stands for, given the number found at its start: no number
/// gives `Auto`; the unit `px`, `rem` or `%` gives its variant; anything else after the
/// number, or nothing, gives `Numeric`.
pub open spec fn size_with(token: Seq<char>, lexeme: Option<Seq<char>>) -> SizeModel {
    match lexeme {
        None => SizeModel::Auto,
        Some(number) => {
            let unit = size_unit(token, number);
            if unit == "px"@ {
                SizeModel::Pixel(number)
            } else if unit == "rem"@ {
                SizeModel::Rem(number)
            } else if unit == "%"@ {
                SizeModel::Percent(number)
            } else {
                SizeModel::Numeric(number)
            }
        },
    }
}

/// What a size token stands for.
pub open spec fn size_of(token: Seq<char>) -> SizeModel {
    size_with(token, float_lexeme(token))
}

/// Builds the size from a token and the number found at its start.
pub fn size_from_lexeme(token: &[char], lexeme: Option<String>) -> (size: Size)
    ensures
        size.view() == size_with(
            token@,
            match lexeme {
                Some(number) => Some(number@),
                None => None,
            },
        ),
{
    match lexeme {
        None => Size::Auto,
        Some(number) => {
            let n = number.as_str().unicode_len();
            let unit = if n <= token.len() {
                tail(token, n)
            } else {
                tail(token, token.len())
            };
            assert(unit@ =~= size_unit(token@, number@));
            if is_word(unit, "px") {
                Size::Pixel(number)
            } else if is_word(unit, "rem") {
                Size::Rem(number)
            } else if is_word(unit, "%") {
                Size::Percent(number)
            } else {
                Size::Numeric(number)
            }
        },
    }
}

/// Reads a size token.
pub fn size(token: &[char]) -> (size: Size)
    ensures
        size.view() == size_of(token@),
{
    let text = string_of(token);
    let lexeme = recognize_float(text.as_str());
    size_from_lexeme(token, lexeme)
}

impl Size {
    /// Reads a size from a number with an optional unit; text without a number gives
    /// `Auto`.
    pub fn from(source: &str) -> (size: Size)
        ensures
            size.view() == size_of(source@),
    {
        let lexeme = recognize_float(source);
        let chars = chars_of(source);
        size_from_lexeme(chars.as_slice(), lexeme)
    }
}

/// `c` is a decimal digit.
pub open spec fn is_digit(c: char) -> bool {
    '0' <= c <= '9'
}

/// Every character of `s` is a decimal digit.
pub open spec fn all_digits(s: Seq<char>) -> bool {
    forall|i: int| 0 <= i < s.len() ==> is_digit(#[trigger] s[i])
}

/// The number that the decimal digits `s` write.
pub open spec fn decimal_value(s: Seq<char>) -> int
    decreases s.len(),
{
    if s.len() == 0 {
        0
    } else {
        decimal_value(s.drop_last()) * 10 + (s.last() as int - '0' as int)
    }
}

/// The number that a token writes: an optional `+`, then at least one decimal digit,
/// with a value that fits in 32 bits. `None` for any other text.
pub open spec fn number_of(token: Seq<char>) -> Option<u32> {
    let digits = strip_one(token, '+');
    if digits.len() > 0 && all_digits(digits) && decimal_value(digits) <= u32::MAX {
        Some(decimal_value(digits) as u32)
    } else {
        None
    }
}

/// A number only grows when more digits follow.
proof fn lemma_decimal_value_grows(s: Seq<char>, n: int)
    requires
        0 <= n <= s.len(),
        all_digits(s),
    ensures
        0 <= decimal_value(s.take(n)) <= decimal_value(s),
    decreases s.len() - n,
{
    if n == s.len() {
        assert(s.take(n) =~= s);
        lemma_decimal_value_nonnegative(s);
    } else {
        lemma_decimal_value_grows(s, n + 1);
        assert(s.take(n + 1).drop_last() =~= s.take(n));
    }
}

proof fn lemma_decimal_value_nonnegative(s: Seq<char>)
    requires
        all_digits(s),
    ensures
        0 <= decimal_value(s),
    decreases s.len(),
{
    if s.len() > 0 {
        lemma_decimal_value_nonnegative(s.drop_last());
    }
}

/// Reads a number token.
pub fn number(token: &[char]) -> (r: Option<u32>)
    ensures
        r == number_of(token@),
{
    let digits = crate::utils::slice_by(token, '+');
    let ghost d = digits@;
    if digits.len() == 0 {
        return None;
    }
    let mut value: u64 = 0;
    let mut i: usize = 0;
    while i < digits.len()
        invariant
            d == digits@,
            d == strip_one(token@, '+'),
            0 < d.len(),
            i <= d.len(),
            all_digits(d.take(i as int)),
            value == decimal_value(d.take(i as int)),
            value <= u32::MAX,
        decreases d.len() - i,
    {
        let c = digits[i];
        if !('0' <= c && c <= '9') {
            return None;
        }
        let next = value * 10 + (c as u32 - '0' as u32) as u64;
        proof {
            assert(d.take(i + 1).drop_last() =~= d.take(i as int));
        }
        if next > 0xffff_ffffu64 {
            proof {
                if all_digits(d) {
                    lemma_decimal_value_grows(d, i + 1);
                }
            }
            return None;
        }
        value = next;
        i = i + 1;
    }
    assert(d.take(i as int) =~= d);
    Some(value as u32)
}

} // verus!
