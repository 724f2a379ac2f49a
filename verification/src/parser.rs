//! The token buffer: the tokens of one document and what can be read of a span.

use pulldown_cmark::Event;
use std::ops::RangeInclusive;
use vstd::prelude::*;
use vstd::slice::slice_subrange;

use crate::cursor::MarkdownIter;
use crate::grammar;
use crate::markdown::{events_of, markup_of, parse_events, serialize, tokenize, tokens_of};
use crate::text::trim_end;
use crate::token::{views, Token, TokenView};

verus! {

/// The tokens of one document. The events that the tokenizer gave are kept
/// beside them, for writing a span back as Markdown.
pub struct MarkdownParser<'input> {
    events: Vec<Event<'input>>,
    tokens: Vec<Token>,
}

impl<'input> MarkdownParser<'input> {
    /// The events of the document.
    pub closed spec fn events(self) -> Seq<Event<'input>> {
        self.events@
    }

    /// The tokens of the document.
    pub closed spec fn items(self) -> Seq<Token> {
        self.tokens@
    }

    /// The tokens of the document, as contracts speak of them.
    pub open spec fn tokens(self) -> Seq<TokenView> {
        views(self.items())
    }

    /// Each token stands for the event at its position.
    #[verifier::type_invariant]
    pub open spec fn wf(self) -> bool {
        self.tokens() == tokens_of(self.events())
    }

    /// Whether `span` is a span of this document: it starts no later than
    /// it ends, and ends within the tokens.
    pub open spec fn has_span(self, span: RangeInclusive<usize>) -> bool {
        span@.start <= span@.end < self.tokens().len()
    }

    /// The events that stand at the positions of `span`.
    pub open spec fn part(self, span: RangeInclusive<usize>) -> Seq<Event<'input>> {
        self.events().subrange(span@.start as int, span@.end + 1)
    }

    /// Tokenizes `markdown_input`, with metadata blocks recognized.
    pub fn new(markdown_input: &'input str) -> (parser: Self)
        ensures
            parser.wf(),
            parser.events() == events_of(markdown_input@),
            parser.tokens() == tokens_of(events_of(markdown_input@)),
    {
        let events = parse_events(markdown_input);
        let tokens = tokenize(&events);
        MarkdownParser { events, tokens }
    }

    /// The number of tokens.
    pub fn len(&self) -> (count: usize)
        ensures
            self.wf(),
            count == self.tokens().len(),
            count == self.events().len(),
    {
        proof {
            use_type_invariant(self);
            assert(self.tokens().len() == tokens_of(self.events()).len());
        }
        self.tokens.len()
    }

    /// The tokens, in order.
    pub fn as_slice(&self) -> (tokens: &[Token])
        ensures
            tokens@ == self.items(),
    {
        self.tokens.as_slice()
    }

    /// The tokens of `range` written back as Markdown; empty text where no
    /// span is given. The span must be one of this document, and one that
    /// the serializer accepts: `render` is for the others.
    pub fn to_string(&self, range: Option<RangeInclusive<usize>>) -> (text: String)
        requires
            range matches Some(span) ==> self.has_span(span) && markup_of(self.part(span)) is Some,
        ensures
            match range {
                Some(span) => markup_of(self.part(span)) == Some(text@),
                None => text@ == Seq::<char>::empty(),
            },
    {
        match self.render(range) {
            Some(text) => text,
            None => unreached(),
        }
    }

    /// The tokens of `range` written back as Markdown; empty text where no
    /// span is given; nothing where the span is none of this document or
    /// the serializer refuses its events.
    pub fn render(&self, range: Option<RangeInclusive<usize>>) -> (text: Option<String>)
        ensures
            match range {
                Some(span) => match text {
                    Some(text) => self.has_span(span) && markup_of(self.part(span)) == Some(text@),
                    None => !self.has_span(span) || markup_of(self.part(span)) is None,
                },
                None => text matches Some(text) && text@ == Seq::<char>::empty(),
            },
    {
        let Some(span) = range else {
            return Some(String::new());
        };
        let start = *span.start();
        let end = *span.end();
        let count = self.len();
        if start > end || end >= count {
            return None;
        }
        serialize(slice_subrange(self.events.as_slice(), start, end + 1))
    }

    /// The text of the run that follows the opening token of `range`,
    /// without the white space at its end; empty text where the second
    /// token of the span is no text run. The span must be one of this document.
    pub fn get_text(&self, range: RangeInclusive<usize>) -> (text: String)
        requires
            self.has_span(range),
        ensures
            text@ == grammar::literal_text(
                self.tokens(),
                range@.start as int,
                range@.end as int,
            ),
            !grammar::holds_text(self.tokens(), range@.start + 1) ==> text@ == Seq::<char>::empty(),
    {
        let start = *range.start();
        let end = *range.end();
        if start < end {
            match &self.tokens[start + 1] {
                Token::Text(text) => trim_end(text.as_str()),
                _ => String::new(),
            }
        } else {
            String::new()
        }
    }

    /// A cursor before the first token.
    pub fn iter(&self) -> (cursor: MarkdownIter<'_>)
        ensures
            cursor.wf(),
            cursor.items() == self.items(),
            cursor.position() == 0,
    {
        MarkdownIter::new(self.tokens.as_slice())
    }
}

} // verus!
