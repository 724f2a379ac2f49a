//! Positional parsing of tokenized Markdown documents.
//!
//! A [`MarkdownParser`] owns the tokens of one document; a [`MarkdownIter`]
//! walks them and extracts metadata blocks, headings, paragraphs, fenced
//! code blocks and item lists as text or as spans of token positions. A
//! span can be written back as Markdown or asked for its leading text.
//!
//! The modules, leaves first:
//! - [`error`]: the two ways in which an extraction fails;
//! - [`token`]: the tokens, and how they are described in an error;
//! - [`markdown`]: the tokenizer and the serializer, which are taken on trust;
//! - [`span`]: spans of token positions;
//! - [`text`]: trailing white space;
//! - [`grammar`]: what each extractor reads off a sequence of tokens, as
//!   functions of that sequence, and what follows from them;
//! - [`cursor`]: the cursor and its extractors;
//! - [`parser`]: the token buffer;
//! - [`threat`]: the grammar of a threat document.

pub mod error;
pub mod token;
pub mod markdown;
pub mod span;
pub mod text;
pub mod grammar;
pub mod cursor;
pub mod parser;
pub mod threat;

pub use cursor::MarkdownIter;
pub use error::Error;
pub use parser::MarkdownParser;
pub use token::{Block, BlockEnd, HeadingLevel, Token};
