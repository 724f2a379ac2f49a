//! The tokenizer and the serializer: `pulldown_cmark` reads a document into
//! events, `pulldown_cmark_to_cmark` writes events back as Markdown. Nothing
//! here is proved of either; each declaration says what is taken on trust.

use pulldown_cmark::{CodeBlockKind, Event, MetadataBlockKind, Options, Parser, Tag, TagEnd};
use vstd::prelude::*;

use crate::token::{views, Block, BlockEnd, Token, TokenView};

verus! {

/// `pulldown_cmark::Event`, carried through unread.
#[verifier::external_type_specification]
#[verifier::external_body]
pub struct ExEvent<'a>(Event<'a>);

/// The events that `pulldown_cmark::Parser` yields for `text` when only
/// YAML-style metadata blocks are enabled.
pub uninterp spec fn events_of(text: Seq<char>) -> Seq<Event<'static>>;

/// What `event` holds, as far as this library reads it: the text of a text
/// run, the block that a start event opens or an end event closes, and
/// `Other` for every other event. `event_text`, `event_start` and
/// `event_end` tell the three apart.
pub uninterp spec fn token_of(event: Event<'static>) -> TokenView;

/// The Markdown that `pulldown_cmark_to_cmark::cmark` writes for `events`,
/// if it accepts them.
pub uninterp spec fn markup_of(events: Seq<Event<'static>>) -> Option<Seq<char>>;

/// Runs `pulldown_cmark::Parser::new_ext` on `text` with the option
/// `ENABLE_YAML_STYLE_METADATA_BLOCKS` and collects every event it yields.
/// The contract only names the result.
#[verifier::external_body]
pub(crate) fn parse_events<'a>(text: &'a str) -> (events: Vec<Event<'a>>)
    ensures
        events@ == events_of(text@),
{
    Parser::new_ext(text, Options::ENABLE_YAML_STYLE_METADATA_BLOCKS).collect()
}

/// Tells `Event::Text` from the other variants of `pulldown_cmark::Event`
/// and copies its text. The contract says that `token_of` is a text run of
/// that text for such an event, and no text run for any other.
#[verifier::external_body]
pub(crate) fn event_text(event: &Event) -> (text: Option<String>)
    ensures
        match text {
            Some(text) => token_of(*event) == TokenView::Text(text@),
            None => !(token_of(*event) is Text),
        },
{
    match event {
        Event::Text(text) => Some(text.to_string()),
        _ => None,
    }
}

/// Tells `Event::Start` from the other variants of `pulldown_cmark::Event`,
/// and among the variants of `pulldown_cmark::Tag` those that this library
/// reads: a YAML-style metadata block, a heading with its level as a number,
/// a paragraph, a fenced code block with its language tag, a list with the
/// number of its first item, and a list item; any other tag is `Other`. The
/// contract says that `token_of` is the start of that block for such an
/// event, and no start for an event of another variant.
#[verifier::external_body]
pub(crate) fn event_start(event: &Event) -> (block: Option<Block>)
    ensures
        match block {
            Some(block) => token_of(*event) == TokenView::Start(block@),
            None => !(token_of(*event) is Start),
        },
{
    match event {
        Event::Start(Tag::MetadataBlock(MetadataBlockKind::YamlStyle)) => Some(Block::Metadata),
        Event::Start(Tag::Heading { level, .. }) => Some(Block::Heading(*level as u8)),
        Event::Start(Tag::Paragraph) => Some(Block::Paragraph),
        Event::Start(Tag::CodeBlock(CodeBlockKind::Fenced(tag))) => Some(Block::Fence(tag.to_string())),
        Event::Start(Tag::List(first)) => Some(Block::List(*first)),
        Event::Start(Tag::Item) => Some(Block::Item),
        Event::Start(_) => Some(Block::Other),
        _ => None,
    }
}

/// Tells `Event::End` from the other variants of `pulldown_cmark::Event`,
/// and among the variants of `pulldown_cmark::TagEnd` those that this
/// library reads; any other is `Other`. The contract says that `token_of`
/// is the end of that block for such an event, and no end for an event of
/// another variant.
#[verifier::external_body]
pub(crate) fn event_end(event: &Event) -> (end: Option<BlockEnd>)
    ensures
        match end {
            Some(end) => token_of(*event) == TokenView::End(end),
            None => !(token_of(*event) is End),
        },
{
    match event {
        Event::End(TagEnd::MetadataBlock(MetadataBlockKind::YamlStyle)) => Some(BlockEnd::Metadata),
        Event::End(TagEnd::Heading(level)) => Some(BlockEnd::Heading(*level as u8)),
        Event::End(TagEnd::Paragraph) => Some(BlockEnd::Paragraph),
        Event::End(TagEnd::CodeBlock) => Some(BlockEnd::CodeBlock),
        Event::End(TagEnd::List(ordered)) => Some(BlockEnd::List(*ordered)),
        Event::End(TagEnd::Item) => Some(BlockEnd::Item),
        Event::End(_) => Some(BlockEnd::Other),
        _ => None,
    }
}

/// Runs `pulldown_cmark_to_cmark::cmark` on `events`, with the parser option
/// that `parse_events` sets, and hands back what it wrote, or nothing where
/// it reports an error, as it does for events that are not balanced. The
/// contract only names the result.
#[verifier::external_body]
pub(crate) fn serialize(events: &[Event]) -> (markup: Option<String>)
    ensures
        match markup {
            Some(text) => markup_of(events@) == Some(text@),
            None => markup_of(events@) is None,
        },
{
    let mut text = String::new();
    let options = Options::ENABLE_YAML_STYLE_METADATA_BLOCKS;
    match pulldown_cmark_to_cmark::cmark(events.iter(), &mut text, options) {
        Ok(_) => Some(text),
        Err(_) => None,
    }
}

/// The token that stands for `event`.
pub(crate) fn classify(event: &Event) -> (token: Token)
    ensures
        token@ == token_of(*event),
{
    if let Some(text) = event_text(event) {
        Token::Text(text)
    } else if let Some(block) = event_start(event) {
        Token::Start(block)
    } else if let Some(end) = event_end(event) {
        Token::End(end)
    } else {
        Token::Other
    }
}

/// The tokens that stand for `events`, in order.
pub open spec fn tokens_of(events: Seq<Event<'static>>) -> Seq<TokenView> {
    Seq::new(events.len(), |i: int| token_of(events[i]))
}

/// One token for each event, in order.
pub(crate) fn tokenize(events: &Vec<Event>) -> (tokens: Vec<Token>)
    ensures
        views(tokens@) == tokens_of(events@),
{
    let mut tokens: Vec<Token> = Vec::new();
    let mut i: usize = 0;
    while i < events.len()
        invariant
            i <= events.len(),
            tokens.len() == i,
            forall|k: int| 0 <= k < i ==> (#[trigger] tokens[k])@ == token_of(events[k]),
        decreases events.len() - i,
    {
        tokens.push(classify(&events[i]));
        i += 1;
    }
    assert(views(tokens@) =~= tokens_of(events@));
    tokens
}

} // verus!
