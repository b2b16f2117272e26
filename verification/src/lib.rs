//! A parser for the namumark wiki markup: text in, a tree of blocks and spans out.
//!
//! Every function works on characters, never on bytes, so a multi-byte letter is
//! always taken or left whole. The contracts are stated over `Seq<char>`: each parser
//! returns the tree that a `spec` function of the same text describes.

pub mod block;
pub mod content;
pub mod span;
pub mod text;
pub mod utils;
pub mod value;

pub use block::{
    block_list as parse, Block, HeadingLevel, ListIndex, ListItem, MultilineBlock, SinglelineBlock,
};
pub use span::{
    span_list, BracketSpan, CommandSpan, ImageOption, MacroSpan, RubyOption, SemanticSpan, Span,
    VideoOption, VideoPlatform,
};
pub use value::{Alignment, Color, FontSizeLevel, Size};
