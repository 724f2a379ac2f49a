//! The cursor: one position in a sequence of tokens, the primitive reads
//! that test a single token, and the extractors built from them.

use std::ops::RangeInclusive;
use vstd::prelude::*;
use vstd::string::StringExecFns;

use crate::error::{Error, ErrorView};
use crate::grammar;
use crate::grammar::Read;
use crate::span::{bounds, some_bounds};
use crate::token::{description, views, Block, BlockEnd, BlockView, HeadingLevel, Token, TokenView};

verus! {

/// A position in the tokens of one document. The tokens are borrowed and
/// never changed; reading only moves the position forward.
pub struct MarkdownIter<'inner> {
    tokens: &'inner [Token],
    pos: usize,
}

/// What a primitive read hands back as contracts speak of it.
pub open spec fn text_result(result: Result<String, Error>) -> Result<Seq<char>, ErrorView> {
    match result {
        Ok(text) => Ok(text@),
        Err(error) => Err(error@),
    }
}

/// What an extractor of spans hands back as contracts speak of it: the
/// first and the last position of the span.
pub open spec fn span_result(result: Result<RangeInclusive<usize>, Error>) -> Result<
    (int, int),
    ErrorView,
> {
    match result {
        Ok(span) => Ok(bounds(span)),
        Err(error) => Err(error@),
    }
}

/// The texts of `strings`, in order.
pub open spec fn texts(strings: Seq<String>) -> Seq<Seq<char>> {
    Seq::new(strings.len(), |i: int| strings[i]@)
}

/// What `item` hands back as contracts speak of it.
pub open spec fn item_result(result: Result<Option<String>, Error>) -> Result<
    Option<Seq<char>>,
    ErrorView,
> {
    match result {
        Ok(Some(text)) => Ok(Some(text@)),
        Ok(None) => Ok(None),
        Err(error) => Err(error@),
    }
}

/// What `item_list` hands back as contracts speak of it.
pub open spec fn list_result(result: Result<Vec<String>, Error>) -> Result<
    Seq<Seq<char>>,
    ErrorView,
> {
    match result {
        Ok(items) => Ok(texts(items@)),
        Err(error) => Err(error@),
    }
}

/// `read` with `before` put in front of the texts it gives.
pub open spec fn prepended(before: Seq<Seq<char>>, read: Read<Seq<Seq<char>>>) -> Read<
    Seq<Seq<char>>,
> {
    match read.value {
        Ok(after) => Read { value: Ok(before + after), next: read.next },
        Err(_) => read,
    }
}

impl<'inner> MarkdownIter<'inner> {
    /// The tokens that this cursor walks.
    pub closed spec fn items(self) -> Seq<Token> {
        self.tokens@
    }

    /// The tokens that this cursor walks, as contracts speak of them.
    pub open spec fn tokens(self) -> Seq<TokenView> {
        views(self.items())
    }

    /// The number of tokens already consumed.
    pub closed spec fn position(self) -> int {
        self.pos as int
    }

    /// The position never lies beyond the end of the tokens.
    #[verifier::type_invariant]
    pub open spec fn wf(self) -> bool {
        0 <= self.position() <= self.tokens().len()
    }

    /// Whether `after` is `before` moved to where `read` ends, `value`
    /// being what `read` gave.
    pub open spec fn reads<T>(
        before: Self,
        after: Self,
        value: Result<T, ErrorView>,
        read: Read<T>,
    ) -> bool {
        &&& after.items() == before.items()
        &&& after.position() == read.next
        &&& value == read.value
    }

    /// Whether `after` is `before` moved to where `read` ends, `found`
    /// being the span that `read` gave, fresh from its making, or the error.
    pub open spec fn reads_span(
        before: Self,
        after: Self,
        found: Result<RangeInclusive<usize>, Error>,
        read: Read<(int, int)>,
    ) -> bool {
        &&& Self::reads(before, after, span_result(found), read)
        &&& found matches Ok(span) ==> !span@.exhausted
    }

    /// The number of tokens not yet consumed.
    pub open spec fn left(self) -> int {
        self.tokens().len() - self.position()
    }

    /// Whether `run` is a run of `f` that starts with the cursor as
    /// `before` has it and succeeds with `span`.
    pub open spec fn succeeds<Fun>(
        f: Fun,
        run: &mut Self,
        before: Self,
        span: RangeInclusive<usize>,
    ) -> bool where Fun: Fn(&mut Self) -> Result<RangeInclusive<usize>, Error> {
        *run == before && call_ensures(f, (run,), Ok::<RangeInclusive<usize>, Error>(span))
    }

    /// Whether `f`, run on the cursor as `before` has it, can fail.
    pub open spec fn fails<Fun>(f: Fun, before: Self) -> bool where
        Fun: Fn(&mut Self) -> Result<RangeInclusive<usize>, Error>,
     {
        exists|run: &mut Self, error: Error|
            *run == before && #[trigger] call_ensures(
                f,
                (run,),
                Err::<RangeInclusive<usize>, Error>(error),
            )
    }

    /// Whether `trace` can hold the cursors of a repetition, and `ends` the
    /// ends of its spans: as many of the one as of the other, at least one,
    /// and every cursor well-formed.
    pub open spec fn traces(trace: Seq<Self>, ends: Seq<int>) -> bool {
        &&& trace.len() == ends.len() >= 1
        &&& forall|i: int| 0 <= i < trace.len() ==> (#[trigger] trace[i]).wf()
    }

    /// Whether the cursor after the `i`-th of `trace` leaves fewer tokens
    /// than the `i`-th does.
    pub open spec fn shrinks(trace: Seq<Self>, i: int) -> bool {
        trace[i + 1].left() < trace[i].left()
    }

    /// A cursor before the first of `tokens`.
    pub fn new(tokens: &'inner [Token]) -> (cursor: Self)
        ensures
            cursor.wf(),
            cursor.items() == tokens@,
            cursor.position() == 0,
    {
        MarkdownIter { tokens, pos: 0 }
    }

    /// The number of tokens not yet consumed.
    pub fn remaining(&self) -> (count: usize)
        ensures
            self.wf(),
            count == self.left(),
    {
        proof {
            use_type_invariant(self);
        }
        self.tokens.len() - self.pos
    }

    /// Consumes one token and hands it back with its position, or nothing
    /// at the end of the stream.
    pub fn next(&mut self) -> (found: Option<(usize, &'inner Token)>)
        ensures
            final(self).items() == old(self).items(),
            match found {
                Some((pos, token)) => {
                    &&& pos == old(self).position() < old(self).items().len()
                    &&& *token == old(self).items()[pos as int]
                    &&& final(self).position() == pos + 1
                },
                None => {
                    &&& old(self).position() == old(self).items().len()
                    &&& final(self).position() == old(self).position()
                },
            },
    {
        proof {
            use_type_invariant(&*self);
        }
        if self.pos < self.tokens.len() {
            let pos = self.pos;
            self.pos = pos + 1;
            Some((pos, &self.tokens[pos]))
        } else {
            None
        }
    }

    /// Consumes one token and hands it back with its position if `f` holds
    /// of it. At the end of the stream nothing is consumed; a token of which
    /// `f` does not hold is consumed all the same.
    pub fn take<F>(&mut self, f: F) -> (found: Result<(&'inner Token, usize), Error>) where
        F: Fn(&Token) -> bool,

        requires
            forall|token: &Token| call_requires(f, (token,)),
        ensures
            final(self).items() == old(self).items(),
            final(self).position() == grammar::past(old(self).tokens(), old(self).position()),
            match found {
                Ok((token, pos)) => {
                    &&& pos == old(self).position() < old(self).items().len()
                    &&& *token == old(self).items()[pos as int]
                    &&& call_ensures(f, (token,), true)
                },
                Err(error) => {
                    &&& error@ == grammar::refusal(old(self).tokens(), old(self).position())
                    &&& old(self).position() < old(self).items().len() ==> call_ensures(
                        f,
                        (&old(self).items()[old(self).position()],),
                        false,
                    )
                },
            },
    {
        let Some((pos, token)) = self.next() else {
            return Err(Error::EOF);
        };
        if !f(token) {
            return Err(Error::Expected(token.describe()));
        }
        Ok((token, pos))
    }

    /// Consumes one token and hands back what `f` makes of it. At the end
    /// of the stream nothing is consumed; a token of which `f` makes
    /// nothing is consumed all the same.
    pub fn take_map<F, T>(&mut self, f: F) -> (found: Result<T, Error>) where
        F: Fn(&Token) -> Option<T>,

        requires
            forall|token: &Token| call_requires(f, (token,)),
        ensures
            final(self).items() == old(self).items(),
            final(self).position() == grammar::past(old(self).tokens(), old(self).position()),
            match found {
                Ok(value) => {
                    &&& old(self).position() < old(self).items().len()
                    &&& call_ensures(
                        f,
                        (&old(self).items()[old(self).position()],),
                        Some(value),
                    )
                },
                Err(error) => {
                    &&& error@ == grammar::refusal(old(self).tokens(), old(self).position())
                    &&& old(self).position() < old(self).items().len() ==> call_ensures(
                        f,
                        (&old(self).items()[old(self).position()],),
                        None::<T>,
                    )
                },
            },
    {
        let Some((_, token)) = self.next() else {
            return Err(Error::EOF);
        };
        match f(token) {
            Some(value) => Ok(value),
            None => Err(Error::Expected(token.describe())),
        }
    }

    /// Consumes one token and hands back its text if it is a text run.
    pub fn take_text(&mut self) -> (found: Result<String, Error>)
        ensures
            final(self).items() == old(self).items(),
            final(self).position() == grammar::past(old(self).tokens(), old(self).position()),
            text_result(found) == if grammar::holds_text(
                old(self).tokens(),
                old(self).position(),
            ) {
                Ok(old(self).tokens()[old(self).position()]->Text_0)
            } else {
                Err(grammar::refusal(old(self).tokens(), old(self).position()))
            },
    {
        let text_of = |token: &Token| -> (text: Option<String>)
            ensures
                text matches Some(text) ==> token@ == TokenView::Text(text@),
                text is None ==> !(token@ is Text),
            { token.text() };
        self.take_map(text_of)
    }

    /// Looks at the next token without consuming it, and hands it back with
    /// its position if `f` holds of it.
    pub fn check<F>(&mut self, f: F) -> (found: Result<(&'inner Token, usize), Error>) where
        F: Fn(&Token) -> bool,

        requires
            forall|token: &Token| call_requires(f, (token,)),
        ensures
            *final(self) == *old(self),
            match found {
                Ok((token, pos)) => {
                    &&& pos == old(self).position() < old(self).items().len()
                    &&& *token == old(self).items()[pos as int]
                    &&& call_ensures(f, (token,), true)
                },
                Err(error) => {
                    &&& error@ == grammar::refusal(old(self).tokens(), old(self).position())
                    &&& old(self).position() < old(self).items().len() ==> call_ensures(
                        f,
                        (&old(self).items()[old(self).position()],),
                        false,
                    )
                },
            },
    {
        proof {
            use_type_invariant(&*self);
        }
        if self.pos >= self.tokens.len() {
            return Err(Error::EOF);
        }
        let token = &self.tokens[self.pos];
        if !f(token) {
            return Err(Error::Expected(token.describe()));
        }
        Ok((token, self.pos))
    }

    /// Consumes one token that must open `block`.
    fn open(&mut self, block: &Block) -> (found: Result<(), Error>)
        ensures
            final(self).items() == old(self).items(),
            final(self).position() == grammar::past(old(self).tokens(), old(self).position()),
            found is Ok <==> grammar::holds(
                old(self).tokens(),
                old(self).position(),
                TokenView::Start(block@),
            ),
            found matches Err(error) ==> error@ == grammar::refusal(old(self).tokens(), old(self).position()),
    {
        let opens = |token: &Token| -> (opens: bool)
            ensures
                opens == (token@ == TokenView::Start(block@)),
            { token.starts(block) };
        self.take(opens)?;
        Ok(())
    }

    /// Consumes one token that must close `end`.
    fn close(&mut self, end: BlockEnd) -> (found: Result<(), Error>)
        ensures
            final(self).items() == old(self).items(),
            final(self).position() == grammar::past(old(self).tokens(), old(self).position()),
            found is Ok <==> grammar::holds(
                old(self).tokens(),
                old(self).position(),
                TokenView::End(end),
            ),
            found matches Err(error) ==> error@ == grammar::refusal(old(self).tokens(), old(self).position()),
    {
        let closes = |token: &Token| -> (closes: bool)
            ensures
                closes == (token@ == TokenView::End(end)),
            { token.ends(end) };
        self.take(closes)?;
        Ok(())
    }

    /// Reads the opening marker `block`, a text run and the closing marker
    /// `end`, and hands back the text.
    fn framed(&mut self, block: &Block, end: BlockEnd) -> (found: Result<String, Error>)
        ensures
            Self::reads(
                *old(self),
                *final(self),
                text_result(found),
                grammar::framed_text(
                    old(self).tokens(),
                    old(self).position(),
                    TokenView::Start(block@),
                    TokenView::End(end),
                ),
            ),
    {
        proof {
            use_type_invariant(&*self);
        }
        self.open(block)?;
        let text = self.take_text()?;
        self.close(end)?;
        Ok(text)
    }

    /// Reads a metadata block: its opening marker, one text run and its
    /// closing marker. Hands back the raw text.
    pub fn metadata(&mut self) -> (found: Result<String, Error>)
        ensures
            Self::reads(
                *old(self),
                *final(self),
                text_result(found),
                grammar::metadata(old(self).tokens(), old(self).position()),
            ),
    {
        self.framed(&Block::Metadata, BlockEnd::Metadata)
    }

    /// Reads a heading of exactly `level`: its opening marker, one text run
    /// and its closing marker. Hands back the text. A heading of another
    /// level is refused, whatever its text.
    pub fn heading(&mut self, level: HeadingLevel) -> (found: Result<String, Error>)
        ensures
            Self::reads(
                *old(self),
                *final(self),
                text_result(found),
                grammar::heading(old(self).tokens(), old(self).position(), level.rank()),
            ),
            forall|other: u8|
                other != level.rank() && grammar::holds(
                    old(self).tokens(),
                    old(self).position(),
                    TokenView::Start(BlockView::Heading(other)),
                ) ==> {
                    &&& found matches Err(Error::Expected(found))
                    &&& found@ == description(TokenView::Start(BlockView::Heading(other)))
                    &&& final(self).position() == old(self).position() + 1
                },
    {
        let number = level.number();
        self.framed(&Block::Heading(number), BlockEnd::Heading(number))
    }

    /// Reads a heading of exactly `level` whose text is exactly `content`.
    pub fn named_heading(&mut self, level: HeadingLevel, content: &'static str) -> (found: Result<
        (),
        Error,
    >)
        ensures
            Self::reads(
                *old(self),
                *final(self),
                match found {
                    Ok(_) => Ok(()),
                    Err(error) => Err(error@),
                },
                grammar::named_heading(
                    old(self).tokens(),
                    old(self).position(),
                    level.rank(),
                    content@,
                ),
            ),
    {
        let text = self.heading(level)?;
        if text != String::from_str(content) {
            return Err(
                Error::Expected(String::from_str("A heading with the content: ").concat(content)),
            );
        }
        Ok(())
    }

    /// Consumes tokens up to and including the first that closes `end`, and
    /// hands back the span from the position before to that token. Where
    /// none closes `end`, every token is consumed and the stream has ended.
    fn through(&mut self, end: BlockEnd) -> (found: Result<RangeInclusive<usize>, Error>)
        ensures
            final(self).items() == old(self).items(),
            match grammar::first_end(old(self).tokens(), old(self).position(), end) {
                Some(last) => {
                    &&& span_result(found) == Ok::<(int, int), ErrorView>(
                        (old(self).position(), last),
                    )
                    &&& !found->Ok_0@.exhausted
                    &&& final(self).position() == last + 1
                },
                None => {
                    &&& span_result(found) == Err::<(int, int), ErrorView>(ErrorView::EOF)
                    &&& final(self).position() == old(self).tokens().len()
                },
            },
    {
        proof {
            use_type_invariant(&*self);
        }
        let start = self.pos;
        let mut at = self.pos;
        while at < self.tokens.len()
            invariant
                start <= at <= self.tokens@.len(),
                self.tokens == old(self).tokens,
                self.pos == start == old(self).pos,
                grammar::first_end(views(self.tokens@), start as int, end) == grammar::first_end(
                    views(self.tokens@),
                    at as int,
                    end,
                ),
            decreases self.tokens@.len() - at,
        {
            if self.tokens[at].ends(end) {
                self.pos = at + 1;
                return Ok(RangeInclusive::new(start, at));
            }
            at += 1;
        }
        self.pos = self.tokens.len();
        Err(Error::EOF)
    }

    /// Reads one paragraph: looks for its opening marker without consuming
    /// it, then consumes up to and including the first closing marker of a
    /// paragraph. Hands back the span from the one to the other. Where the
    /// tokens end before the paragraph is closed, every token is consumed
    /// and the failure is the end of the stream.
    pub fn paragraph(&mut self) -> (found: Result<RangeInclusive<usize>, Error>)
        ensures
            Self::reads_span(
                *old(self),
                *final(self),
                found,
                grammar::paragraph(old(self).tokens(), old(self).position()),
            ),
            found matches Ok(span) ==> {
                &&& span@.start == old(self).position() < span@.end
                &&& grammar::holds(
                    old(self).tokens(),
                    span@.start as int,
                    TokenView::Start(BlockView::Paragraph),
                )
                &&& grammar::closes_at(
                    old(self).tokens(),
                    span@.start as int,
                    span@.end as int,
                    BlockEnd::Paragraph,
                )
                &&& final(self).position() == span@.end + 1
            },
            grammar::holds(
                old(self).tokens(),
                old(self).position(),
                TokenView::Start(BlockView::Paragraph),
            ) && grammar::first_end(
                old(self).tokens(),
                old(self).position(),
                BlockEnd::Paragraph,
            ) is None ==> {
                &&& found matches Err(Error::EOF)
                &&& final(self).position() == old(self).tokens().len()
            },
    {
        proof {
            if grammar::paragraph(self.tokens(), self.position()).value is Ok {
                grammar::lemma_paragraph_span(self.tokens(), self.position());
            }
        }
        let opens = |token: &Token| -> (opens: bool)
            ensures
                opens == (token@ == TokenView::Start(BlockView::Paragraph)),
            { token.starts(&Block::Paragraph) };
        self.check(opens)?;
        self.through(BlockEnd::Paragraph)
    }

    /// Reads one code block: asks `f` about the next token without
    /// consuming it, then consumes up to and including the first closing
    /// marker of a code block. Where the tokens end before the block is
    /// closed, every token is consumed and the failure is the end of the
    /// stream.
    pub fn code_block_fn<F>(&mut self, f: F) -> (found: Result<RangeInclusive<usize>, Error>) where
        F: Fn(&Token) -> bool,

        requires
            forall|token: &Token| call_requires(f, (token,)),
        ensures
            exists|opens: bool|
                {
                    &&& old(self).position() < old(self).items().len() ==> call_ensures(
                        f,
                        (&old(self).items()[old(self).position()],),
                        opens,
                    )
                    &&& #[trigger] Self::reads_span(
                        *old(self),
                        *final(self),
                        found,
                        grammar::enclosed(
                            old(self).tokens(),
                            old(self).position(),
                            opens,
                            BlockEnd::CodeBlock,
                        ),
                    )
                },
    {
        proof {
            use_type_invariant(&*self);
        }
        let ghost tokens = self.tokens();
        let ghost pos = self.position();
        match self.check(f) {
            Ok(_) => {},
            Err(error) => {
                let found = Err(error);
                assert(Self::reads_span(
                    *old(self),
                    *self,
                    found,
                    grammar::enclosed(tokens, pos, false, BlockEnd::CodeBlock),
                ));
                return found;
            },
        }
        let found = self.through(BlockEnd::CodeBlock);
        assert(Self::reads_span(
            *old(self),
            *self,
            found,
            grammar::enclosed(tokens, pos, true, BlockEnd::CodeBlock),
        ));
        found
    }

    /// Reads one fenced code block, whatever its language. One that is
    /// never closed fails with the end of the stream.
    pub fn code_block(&mut self) -> (found: Result<RangeInclusive<usize>, Error>)
        ensures
            Self::reads_span(
                *old(self),
                *final(self),
                found,
                grammar::code_block(old(self).tokens(), old(self).position()),
            ),
            found matches Ok(span) ==> {
                &&& span@.start == old(self).position() < span@.end
                &&& grammar::holds_fence(old(self).tokens(), span@.start as int)
                &&& grammar::closes_at(
                    old(self).tokens(),
                    span@.start as int,
                    span@.end as int,
                    BlockEnd::CodeBlock,
                )
                &&& final(self).position() == span@.end + 1
            },
            grammar::holds_fence(old(self).tokens(), old(self).position()) && grammar::first_end(
                old(self).tokens(),
                old(self).position(),
                BlockEnd::CodeBlock,
            ) is None ==> {
                &&& found matches Err(Error::EOF)
                &&& final(self).position() == old(self).tokens().len()
            },
    {
        proof {
            if grammar::code_block(self.tokens(), self.position()).value is Ok {
                grammar::lemma_code_block_span(self.tokens(), self.position());
            }
        }
        let opens = |token: &Token| -> (opens: bool)
            ensures
                opens == (token@ matches TokenView::Start(BlockView::Fence(_))),
            { token.starts_fence() };
        self.code_block_fn(opens)
    }

    /// Reads one fenced code block whose language tag is exactly `lang`;
    /// one with another tag is refused and nothing is consumed. One that is
    /// never closed fails with the end of the stream.
    pub fn lang_block(&mut self, lang: &str) -> (found: Result<RangeInclusive<usize>, Error>)
        ensures
            Self::reads_span(
                *old(self),
                *final(self),
                found,
                grammar::lang_block(old(self).tokens(), old(self).position(), lang@),
            ),
            found matches Ok(span) ==> {
                &&& span@.start == old(self).position() < span@.end
                &&& grammar::holds(
                    old(self).tokens(),
                    span@.start as int,
                    TokenView::Start(BlockView::Fence(lang@)),
                )
                &&& grammar::closes_at(
                    old(self).tokens(),
                    span@.start as int,
                    span@.end as int,
                    BlockEnd::CodeBlock,
                )
                &&& final(self).position() == span@.end + 1
            },
            !grammar::holds(
                old(self).tokens(),
                old(self).position(),
                TokenView::Start(BlockView::Fence(lang@)),
            ) ==> found is Err && final(self).position() == old(self).position(),
            grammar::holds(
                old(self).tokens(),
                old(self).position(),
                TokenView::Start(BlockView::Fence(lang@)),
            ) && grammar::first_end(
                old(self).tokens(),
                old(self).position(),
                BlockEnd::CodeBlock,
            ) is None ==> {
                &&& found matches Err(Error::EOF)
                &&& final(self).position() == old(self).tokens().len()
            },
    {
        proof {
            grammar::lemma_lang_block(self.tokens(), self.position(), lang@);
            if grammar::code_block(self.tokens(), self.position()).value is Ok {
                grammar::lemma_code_block_span(self.tokens(), self.position());
            }
        }
        let wanted = Block::Fence(String::from_str(lang));
        let opens = |token: &Token| -> (opens: bool)
            ensures
                opens == (token@ == TokenView::Start(BlockView::Fence(lang@))),
            { token.starts(&wanted) };
        self.code_block_fn(opens)
    }

    /// Reads one unit of body content: a paragraph or, failing that, a
    /// fenced code block read from the same position.
    pub fn text(&mut self) -> (found: Result<RangeInclusive<usize>, Error>)
        ensures
            Self::reads_span(
                *old(self),
                *final(self),
                found,
                grammar::text(old(self).tokens(), old(self).position()),
            ),
    {
        proof {
            use_type_invariant(&*self);
        }
        let start = self.pos;
        match self.paragraph() {
            Ok(span) => {
                return Ok(span);
            },
            Err(_) => {
                self.pos = start;
            },
        }
        match self.code_block() {
            Ok(span) => {
                return Ok(span);
            },
            Err(_) => {
                self.pos = start;
            },
        }
        Err(Error::Expected(String::from_str("Expected either one of the functions to return")))
    }

    /// Reads one list item: its opening marker, one text run and its
    /// closing marker. Hands back the text, or nothing, with nothing
    /// consumed, where no item opens here.
    pub fn item(&mut self) -> (found: Result<Option<String>, Error>)
        ensures
            Self::reads(
                *old(self),
                *final(self),
                item_result(found),
                grammar::item(old(self).tokens(), old(self).position()),
            ),
    {
        proof {
            use_type_invariant(&*self);
        }
        if self.pos < self.tokens.len() && self.tokens[self.pos].starts(&Block::Item) {
            self.pos += 1;
        } else {
            return Ok(None);
        }
        let text = match self.next() {
            Some((_, token)) => token.text(),
            None => None,
        };
        let Some(text) = text else {
            return Err(Error::Expected(String::from_str("expected a Text block")));
        };
        let closed = match self.next() {
            Some((_, token)) => token.ends(BlockEnd::Item),
            None => false,
        };
        if !closed {
            return Err(Error::Expected(String::from_str("expected a code block")));
        }
        Ok(Some(text))
    }

    /// Reads an unordered list: its opening marker, items for as long as
    /// one opens, and its closing marker. Hands back the texts of the items
    /// in order. One malformed item fails the whole list. Where no token is
    /// left in the place of the opening or of the closing marker, the
    /// failure is the end of the stream; another token in that place is
    /// consumed and refused.
    pub fn item_list(&mut self) -> (found: Result<Vec<String>, Error>)
        ensures
            Self::reads(
                *old(self),
                *final(self),
                list_result(found),
                grammar::item_list(old(self).tokens(), old(self).position()),
            ),
            old(self).position() == old(self).tokens().len() ==> {
                &&& found matches Err(Error::EOF)
                &&& final(self).position() == old(self).position()
            },
            grammar::holds(
                old(self).tokens(),
                old(self).position(),
                TokenView::Start(BlockView::List(None)),
            ) && grammar::holds_list_end(old(self).tokens(), old(self).position() + 1) ==> {
                &&& found matches Ok(items)
                &&& items@.len() == 0
                &&& final(self).position() == old(self).position() + 2
            },
    {
        proof {
            use_type_invariant(&*self);
            if grammar::holds(
                self.tokens(),
                self.position(),
                TokenView::Start(BlockView::List(None)),
            ) && grammar::holds_list_end(self.tokens(), self.position() + 1) {
                grammar::lemma_empty_list(self.tokens(), self.position());
            }
        }
        let Some((_, opening)) = self.next() else {
            return Err(Error::EOF);
        };
        if !opening.starts(&Block::List(None)) {
            return Err(Error::Expected(String::from_str("expected a list block")));
        }
        let ghost first = self.position();
        let mut items: Vec<String> = Vec::new();
        loop
            invariant
                self.items() == old(self).items(),
                first == old(self).position() + 1,
                grammar::holds(
                    self.tokens(),
                    first - 1,
                    TokenView::Start(BlockView::List(None)),
                ),
                self.wf(),
                grammar::items(self.tokens(), first) == prepended(
                    texts(items@),
                    grammar::items(self.tokens(), self.position()),
                ),
            decreases self.tokens().len() - self.position(),
        {
            let ghost so_far = texts(items@);
            match self.item() {
                Err(error) => {
                    return Err(error);
                },
                Ok(None) => {
                    assert(so_far + Seq::<Seq<char>>::empty() =~= so_far);
                    let Some((_, closing)) = self.next() else {
                        return Err(Error::EOF);
                    };
                    if !closing.ends_list() {
                        return Err(Error::Expected(String::from_str("expected a end of list")));
                    }
                    return Ok(items);
                },
                Ok(Some(text)) => {
                    proof {
                        use_type_invariant(&*self);
                    }
                    let ghost one = text@;
                    items.push(text);
                    proof {
                        let rest = grammar::items(self.tokens(), self.position());
                        assert(texts(items@) =~= so_far + seq![one]);
                        if let Ok(after) = rest.value {
                            assert(so_far + (seq![one] + after) =~= texts(items@) + after);
                        }
                    }
                },
            }
        }
    }

    /// Tries each of `funs` in order and hands back the first success.
    /// Every attempt starts at the position at which `alt` was called: the
    /// cursor is put back after each failure, also after the last.
    pub fn alt<Fun>(&mut self, funs: &[Fun]) -> (found: Result<RangeInclusive<usize>, Error>) where
        Fun: Fn(&mut Self) -> Result<RangeInclusive<usize>, Error>,

        requires
            forall|i: int, cursor: &mut Self|
                0 <= i < funs@.len() && cursor.wf() ==> call_requires(funs@[i], (cursor,)),
        ensures
            match found {
                Ok(span) => exists|k: int, run: &mut Self|
                    {
                        &&& 0 <= k < funs@.len()
                        &&& #[trigger] Self::succeeds(funs@[k], run, *old(self), span)
                        &&& *final(run) == *final(self)
                        &&& forall|j: int|
                            0 <= j < k ==> #[trigger] Self::fails(funs@[j], *old(self))
                    },
                Err(error) => {
                    &&& error@ == ErrorView::Expected(
                        "Expected either one of the functions to return"@,
                    )
                    &&& *final(self) == *old(self)
                    &&& forall|j: int|
                        0 <= j < funs@.len() ==> #[trigger] Self::fails(funs@[j], *old(self))
                },
            },
    {
        proof {
            use_type_invariant(&*self);
        }
        let tokens = self.tokens;
        let pos = self.pos;
        let mut k: usize = 0;
        while k < funs.len()
            invariant
                k <= funs@.len(),
                *self == *old(self),
                *self == (MarkdownIter { tokens, pos }),
                self.wf(),
                forall|i: int, cursor: &mut Self|
                    0 <= i < funs@.len() && cursor.wf() ==> call_requires(funs@[i], (cursor,)),
                forall|j: int| 0 <= j < k ==> #[trigger] Self::fails(funs@[j], *old(self)),
            decreases funs@.len() - k,
        {
            match (funs[k])(self) {
                Ok(span) => {
                    proof {
                        let run = choose|run: &mut Self|
                            *run == *old(self) && *final(run) == *self && #[trigger] call_ensures(
                                funs@[k as int],
                                (run,),
                                Ok::<RangeInclusive<usize>, Error>(span),
                            );
                        assert(Self::succeeds(funs@[k as int], run, *old(self), span));
                    }
                    return Ok(span);
                },
                Err(_) => {
                    *self = MarkdownIter { tokens, pos };
                },
            }
            k += 1;
        }
        Err(Error::Expected(String::from_str("Expected either one of the functions to return")))
    }

    /// Reads one paragraph, then runs `f` again and again, each run
    /// starting where the one before ended, and stops at the first run that
    /// fails or leaves no fewer tokens than it found; the cursor is put back
    /// to where that run started. Hands back the span from the opening of
    /// the paragraph to the end of the span of the last run that succeeded.
    /// Where no paragraph can be read, hands back nothing and consumes nothing.
    pub fn multi<Fun>(&mut self, f: Fun) -> (found: Option<RangeInclusive<usize>>) where
        Fun: Fn(&mut Self) -> Result<RangeInclusive<usize>, Error>,

        requires
            forall|cursor: &mut Self| cursor.wf() ==> call_requires(f, (cursor,)),
        ensures
            grammar::paragraph(old(self).tokens(), old(self).position()).value is Err ==> {
                &&& found is None
                &&& *final(self) == *old(self)
            },
            !grammar::holds(
                old(self).tokens(),
                old(self).position(),
                TokenView::Start(BlockView::Paragraph),
            ) ==> found is None && *final(self) == *old(self),
            grammar::paragraph(old(self).tokens(), old(self).position()).value matches Ok(first)
                ==> {
                &&& found matches Some(span)
                &&& span@.start == first.0
                &&& !span@.exhausted
                &&& exists|trace: Seq<Self>, ends: Seq<int>|
                    {
                        &&& #[trigger] Self::traces(trace, ends)
                        &&& trace.last() == *final(self)
                        &&& ends.last() == span@.end
                        &&& trace[0].items() == old(self).items()
                        &&& trace[0].position() == grammar::paragraph(
                            old(self).tokens(),
                            old(self).position(),
                        ).next
                        &&& ends[0] == first.1
                        &&& forall|i: int|
                            0 <= i < trace.len() - 1 ==> {
                                &&& #[trigger] Self::shrinks(trace, i)
                                &&& exists|run: &mut Self, step: RangeInclusive<usize>|
                                    {
                                        &&& #[trigger] Self::succeeds(f, run, trace[i], step)
                                        &&& *final(run) == trace[i + 1]
                                        &&& step@.end == ends[i + 1]
                                    }
                            }
                    }
            },
            found is Some ==> Self::fails(f, *final(self)) || exists|
                run: &mut Self,
                step: RangeInclusive<usize>,
            |
                {
                    &&& #[trigger] Self::succeeds(f, run, *final(self), step)
                    &&& final(run).left() >= final(self).left()
                },
    {
        proof {
            use_type_invariant(&*self);
        }
        let tokens = self.tokens;
        let start = self.pos;
        let content = match self.paragraph() {
            Ok(content) => content,
            Err(_) => {
                *self = MarkdownIter { tokens, pos: start };
                return None;
            },
        };
        let mut end = *content.end();
        let ghost first = (start as int, end as int);
        let ghost mut trace: Seq<Self> = seq![*self];
        let ghost mut ends: Seq<int> = seq![end as int];
        proof {
            use_type_invariant(&*self);
        }
        loop
            invariant
                forall|cursor: &mut Self| cursor.wf() ==> call_requires(f, (cursor,)),
                grammar::paragraph(old(self).tokens(), old(self).position()).value == Ok::<
                    (int, int),
                    ErrorView,
                >(first),
                first.0 == start,
                Self::traces(trace, ends),
                trace.last() == *self,
                ends.last() == end,
                trace[0].items() == old(self).items(),
                trace[0].position() == grammar::paragraph(
                    old(self).tokens(),
                    old(self).position(),
                ).next,
                ends[0] == first.1,
                forall|i: int|
                    0 <= i < trace.len() - 1 ==> {
                        &&& #[trigger] Self::shrinks(trace, i)
                        &&& exists|run: &mut Self, step: RangeInclusive<usize>|
                            {
                                &&& #[trigger] Self::succeeds(f, run, trace[i], step)
                                &&& *final(run) == trace[i + 1]
                                &&& step@.end == ends[i + 1]
                            }
                    },
            decreases self.left(),
        {
            let ghost before = *self;
            let here = self.tokens;
            let pos = self.pos;
            let left = self.tokens.len() - self.pos;
            let attempt = f(self);
            proof {
                use_type_invariant(&*self);
            }
            let ghost after = *self;
            let ghost outcome = attempt;
            let further = match attempt {
                Ok(next) => {
                    if self.tokens.len() - self.pos < left {
                        Some(*next.end())
                    } else {
                        None
                    }
                },
                Err(_) => None,
            };
            match further {
                Some(reached) => {
                    end = reached;
                    proof {
                        let next = outcome->Ok_0;
                        let run = choose|run: &mut Self|
                            *run == before && *final(run) == after && #[trigger] call_ensures(
                                f,
                                (run,),
                                Ok::<RangeInclusive<usize>, Error>(next),
                            );
                        assert(Self::succeeds(f, run, before, next));
                        let longer = trace.push(*self);
                        let more = ends.push(end as int);
                        assert forall|i: int| 0 <= i < longer.len() - 1 implies {
                            &&& #[trigger] Self::shrinks(longer, i)
                            &&& exists|run: &mut Self, step: RangeInclusive<usize>|
                                {
                                    &&& #[trigger] Self::succeeds(f, run, longer[i], step)
                                    &&& *final(run) == longer[i + 1]
                                    &&& step@.end == more[i + 1]
                                }
                        } by {
                            if i < trace.len() - 1 {
                                assert(Self::shrinks(trace, i));
                            } else {
                                assert(Self::succeeds(f, run, longer[i], next));
                            }
                        }
                        trace = longer;
                        ends = more;
                    }
                },
                None => {
                    *self = MarkdownIter { tokens: here, pos };
                    proof {
                        assert(*self == before);
                        if let Ok(next) = outcome {
                            let run = choose|run: &mut Self|
                                *run == before && *final(run) == after && #[trigger] call_ensures(
                                    f,
                                    (run,),
                                    Ok::<RangeInclusive<usize>, Error>(next),
                                );
                            assert(Self::succeeds(f, run, *self, next) && final(run).left()
                                >= self.left());
                        } else {
                            assert(Self::fails(f, *self));
                        }
                        assert(Self::traces(trace, ends));
                    }
                    return Some(RangeInclusive::new(start, end));
                },
            }
        }
    }

    /// Reads a paragraph and every unit of body content that follows it: a
    /// run of paragraphs and fenced code blocks taken as one field. Hands
    /// back the span from the opening of the first to the closing of the
    /// last, or nothing, with nothing consumed, where no paragraph stands here.
    pub fn body(&mut self) -> (found: Option<RangeInclusive<usize>>)
        ensures
            final(self).items() == old(self).items(),
            (some_bounds(found), final(self).position()) == grammar::body(
                old(self).tokens(),
                old(self).position(),
            ),
            found matches Some(span) ==> !span@.exhausted,
            !grammar::holds(
                old(self).tokens(),
                old(self).position(),
                TokenView::Start(BlockView::Paragraph),
            ) ==> found is None && *final(self) == *old(self),
    {
        proof {
            use_type_invariant(&*self);
        }
        let found = self.multi(Self::text);
        proof {
            let tokens = old(self).tokens();
            let first = grammar::paragraph(tokens, old(self).position());
            if let Ok(head) = first.value {
                let span = found->Some_0;
                grammar::lemma_paragraph_span(tokens, old(self).position());
                let (trace, ends) = choose|trace: Seq<Self>, ends: Seq<int>|
                    {
                        &&& #[trigger] Self::traces(trace, ends)
                        &&& trace.last() == *self
                        &&& ends.last() == span@.end
                        &&& trace[0].items() == old(self).items()
                        &&& trace[0].position() == first.next
                        &&& ends[0] == head.1
                        &&& forall|i: int|
                            0 <= i < trace.len() - 1 ==> {
                                &&& #[trigger] Self::shrinks(trace, i)
                                &&& exists|run: &mut Self, step: RangeInclusive<usize>|
                                    {
                                        &&& #[trigger] Self::succeeds(
                                            Self::text,
                                            run,
                                            trace[i],
                                            step,
                                        )
                                        &&& *final(run) == trace[i + 1]
                                        &&& step@.end == ends[i + 1]
                                    }
                            }
                    };
                let starts = Seq::new(trace.len(), |i: int| trace[i].position());
                assert(Self::traces(trace, ends));
                assert forall|i: int| 0 <= i < trace.len() - 1 implies #[trigger] Self::linked(
                    trace,
                    ends,
                    i,
                ) by {
                    assert(Self::shrinks(trace, i));
                }
                assert forall|i: int| 0 <= i < trace.len() implies (#[trigger] trace[i]).items()
                    == old(self).items() by {
                    Self::lemma_same_items(trace, ends, i);
                }
                assert forall|i: int| 0 <= i < starts.len() - 1 implies #[trigger] grammar::follows(
                    tokens,
                    starts,
                    ends,
                    i,
                ) by {
                    assert(Self::linked(trace, ends, i));
                    assert(trace[i].items() == old(self).items());
                }
                assert(trace.last().items() == old(self).items());
                assert(grammar::text(tokens, self.position()).value is Err) by {
                    if grammar::text(tokens, self.position()).value is Ok {
                        grammar::lemma_text_advances(tokens, self.position());
                        assert(!Self::fails(Self::text, *self));
                        let (run, step) = choose|run: &mut Self, step: RangeInclusive<usize>|
                            {
                                &&& #[trigger] Self::succeeds(Self::text, run, *self, step)
                                &&& final(run).left() >= self.left()
                            };
                        assert(final(run).position() == grammar::text(
                            tokens,
                            self.position(),
                        ).next);
                    }
                }
                grammar::lemma_extended(tokens, starts, ends, 0);
            }
        }
        found
    }

    /// Whether the `i`-th of `trace` is a cursor at which a unit of body
    /// content is read that ends at the next of `ends` and leaves the
    /// cursor as the next of `trace` has it.
    spec fn linked(trace: Seq<Self>, ends: Seq<int>, i: int) -> bool {
        &&& trace[i + 1].items() == trace[i].items()
        &&& grammar::text(trace[i].tokens(), trace[i].position()).value matches Ok(step)
        &&& step.1 == ends[i + 1]
        &&& grammar::text(trace[i].tokens(), trace[i].position()).next == trace[i + 1].position()
    }

    /// Cursors that follow one another over the same tokens all walk the
    /// tokens of the first.
    proof fn lemma_same_items(trace: Seq<Self>, ends: Seq<int>, k: int)
        requires
            0 <= k < trace.len(),
            forall|i: int| 0 <= i < trace.len() - 1 ==> #[trigger] Self::linked(trace, ends, i),
        ensures
            trace[k].items() == trace[0].items(),
        decreases k,
    {
        if k > 0 {
            assert(Self::linked(trace, ends, k - 1));
            Self::lemma_same_items(trace, ends, k - 1);
        }
    }
}

} // verus!
