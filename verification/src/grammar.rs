//! What each extractor reads off a sequence of tokens: the result, and the
//! position at which the cursor is left. The cursor's contracts are stated
//! over these functions.

use vstd::prelude::*;

use crate::error::ErrorView;
use crate::text::trimmed;
use crate::token::{description, BlockEnd, BlockView, TokenView};

verus! {

/// What reading at some position gave, and the position after it.
pub struct Read<T> {
    pub value: Result<T, ErrorView>,
    pub next: int,
}

/// Whether `token` stands at `at`.
pub open spec fn holds(tokens: Seq<TokenView>, at: int, token: TokenView) -> bool {
    0 <= at < tokens.len() && tokens[at] == token
}

/// Whether a text run stands at `at`.
pub open spec fn holds_text(tokens: Seq<TokenView>, at: int) -> bool {
    0 <= at < tokens.len() && tokens[at] is Text
}

/// The position after the token at `at`, or `at` where the tokens end before it.
pub open spec fn past(tokens: Seq<TokenView>, at: int) -> int {
    if at >= tokens.len() {
        at
    } else {
        at + 1
    }
}

/// The error of a read that wanted something else at `at`: the end of the
/// stream where the tokens end before it, else the token found there.
pub open spec fn refusal(tokens: Seq<TokenView>, at: int) -> ErrorView {
    if at >= tokens.len() {
        ErrorView::EOF
    } else {
        ErrorView::Expected(description(tokens[at]))
    }
}

/// The failure of a read that wanted something else at `at`; the token
/// found there, if any, is consumed.
pub open spec fn refused<T>(tokens: Seq<TokenView>, at: int) -> Read<T> {
    Read { value: Err(refusal(tokens, at)), next: past(tokens, at) }
}

/// The failure of a look at `at`, which consumes nothing.
pub open spec fn declined<T>(tokens: Seq<TokenView>, at: int) -> Read<T> {
    Read { value: Err(refusal(tokens, at)), next: at }
}

/// The failure with a fixed message of a read that consumed the token at
/// `at`, if there was one.
pub open spec fn missing<T>(tokens: Seq<TokenView>, at: int, message: Seq<char>) -> Read<T> {
    Read { value: Err(ErrorView::Expected(message)), next: past(tokens, at) }
}

/// Reads `open`, a text run and `close`, in this order, and gives the text.
/// It fails at the first of the three positions that holds something else.
pub open spec fn framed_text(
    tokens: Seq<TokenView>,
    pos: int,
    open: TokenView,
    close: TokenView,
) -> Read<Seq<char>> {
    if !holds(tokens, pos, open) {
        refused(tokens, pos)
    } else if !holds_text(tokens, pos + 1) {
        refused(tokens, pos + 1)
    } else if !holds(tokens, pos + 2, close) {
        refused(tokens, pos + 2)
    } else {
        Read { value: Ok(tokens[pos + 1]->Text_0), next: pos + 3 }
    }
}

/// Reads a metadata block and gives its raw text.
pub open spec fn metadata(tokens: Seq<TokenView>, pos: int) -> Read<Seq<char>> {
    framed_text(
        tokens,
        pos,
        TokenView::Start(BlockView::Metadata),
        TokenView::End(BlockEnd::Metadata),
    )
}

/// Reads a heading of exactly `level` and gives its text.
pub open spec fn heading(tokens: Seq<TokenView>, pos: int, level: u8) -> Read<Seq<char>> {
    framed_text(
        tokens,
        pos,
        TokenView::Start(BlockView::Heading(level)),
        TokenView::End(BlockEnd::Heading(level)),
    )
}

/// The description of the error for a heading that does not read `content`.
pub open spec fn heading_wanted(content: Seq<char>) -> Seq<char> {
    "A heading with the content: "@ + content
}

/// Reads a heading of exactly `level` whose text is exactly `content`.
pub open spec fn named_heading(
    tokens: Seq<TokenView>,
    pos: int,
    level: u8,
    content: Seq<char>,
) -> Read<()> {
    let read = heading(tokens, pos, level);
    match read.value {
        Err(error) => Read { value: Err(error), next: read.next },
        Ok(text) => if text == content {
            Read { value: Ok(()), next: read.next }
        } else {
            Read { value: Err(ErrorView::Expected(heading_wanted(content))), next: read.next }
        },
    }
}

/// The first position at or after `from` that holds the closing marker
/// `end`, if there is one.
pub open spec fn first_end(tokens: Seq<TokenView>, from: int, end: BlockEnd) -> Option<int>
    decreases tokens.len() - from,
{
    if from < 0 || from >= tokens.len() {
        None
    } else if tokens[from] == TokenView::End(end) {
        Some(from)
    } else {
        first_end(tokens, from + 1, end)
    }
}

/// Reads one block that starts at `pos` and runs up to the first `end`:
/// `opens` says whether the token at `pos` is the opening marker wanted.
/// Where it is not, nothing is consumed. Where no `end` follows, every token
/// is consumed and the failure is the end of the stream.
pub open spec fn enclosed(tokens: Seq<TokenView>, pos: int, opens: bool, end: BlockEnd) -> Read<
    (int, int),
> {
    if pos >= tokens.len() || !opens {
        declined(tokens, pos)
    } else {
        match first_end(tokens, pos, end) {
            Some(last) => Read { value: Ok((pos, last)), next: last + 1 },
            None => Read { value: Err(ErrorView::EOF), next: tokens.len() as int },
        }
    }
}

/// Reads one paragraph and gives the span from its opening to its closing marker.
pub open spec fn paragraph(tokens: Seq<TokenView>, pos: int) -> Read<(int, int)> {
    enclosed(
        tokens,
        pos,
        holds(tokens, pos, TokenView::Start(BlockView::Paragraph)),
        BlockEnd::Paragraph,
    )
}

/// Whether a fenced code block opens at `at`, whatever its language.
pub open spec fn holds_fence(tokens: Seq<TokenView>, at: int) -> bool {
    0 <= at < tokens.len() && tokens[at] matches TokenView::Start(BlockView::Fence(_))
}

/// Reads one fenced code block of any language and gives its span.
pub open spec fn code_block(tokens: Seq<TokenView>, pos: int) -> Read<(int, int)> {
    enclosed(
        tokens,
        pos,
        holds_fence(tokens, pos),
        BlockEnd::CodeBlock,
    )
}

/// Reads one fenced code block whose language tag is exactly `language`.
pub open spec fn lang_block(tokens: Seq<TokenView>, pos: int, language: Seq<char>) -> Read<
    (int, int),
> {
    enclosed(
        tokens,
        pos,
        holds(tokens, pos, TokenView::Start(BlockView::Fence(language))),
        BlockEnd::CodeBlock,
    )
}

/// Reads one unit of body content: a paragraph or, failing that, a fenced
/// code block read from the same position. Where both fail nothing is consumed.
pub open spec fn text(tokens: Seq<TokenView>, pos: int) -> Read<(int, int)> {
    if paragraph(tokens, pos).value is Ok {
        paragraph(tokens, pos)
    } else if code_block(tokens, pos).value is Ok {
        code_block(tokens, pos)
    } else {
        Read {
            value: Err(ErrorView::Expected("Expected either one of the functions to return"@)),
            next: pos,
        }
    }
}

/// The end of the last of the units of body content that follow one
/// another from `pos` on, or `last` if none stands there, and the position
/// after it.
pub open spec fn extended(tokens: Seq<TokenView>, pos: int, last: int) -> (int, int)
    decreases tokens.len() - pos,
{
    match text(tokens, pos).value {
        Ok(span) => {
            proof {
                lemma_text_advances(tokens, pos);
            }
            extended(tokens, span.1 + 1, span.1)
        },
        Err(_) => (last, pos),
    }
}

/// Reads a paragraph and every unit of body content that follows it, and
/// gives the span from the opening of the first to the closing of the last;
/// nothing, with nothing consumed, where no paragraph stands at `pos`.
pub open spec fn body(tokens: Seq<TokenView>, pos: int) -> (Option<(int, int)>, int) {
    match paragraph(tokens, pos).value {
        Ok(first) => {
            let (last, next) = extended(tokens, paragraph(tokens, pos).next, first.1);
            (Some((first.0, last)), next)
        },
        Err(_) => (None, pos),
    }
}

/// Reads one list item and gives its text, or nothing, with nothing
/// consumed, where no item opens at `pos`.
pub open spec fn item(tokens: Seq<TokenView>, pos: int) -> Read<Option<Seq<char>>> {
    if !holds(tokens, pos, TokenView::Start(BlockView::Item)) {
        Read { value: Ok(None), next: pos }
    } else if !holds_text(tokens, pos + 1) {
        missing(tokens, pos + 1, "expected a Text block"@)
    } else if !holds(tokens, pos + 2, TokenView::End(BlockEnd::Item)) {
        missing(tokens, pos + 2, "expected a code block"@)
    } else {
        Read { value: Ok(Some(tokens[pos + 1]->Text_0)), next: pos + 3 }
    }
}

/// Reads list items for as long as one opens, and gives their texts in order.
pub open spec fn items(tokens: Seq<TokenView>, pos: int) -> Read<Seq<Seq<char>>>
    decreases tokens.len() - pos,
{
    let first = item(tokens, pos);
    match first.value {
        Err(error) => Read { value: Err(error), next: first.next },
        Ok(None) => Read { value: Ok(Seq::empty()), next: pos },
        Ok(Some(text)) => {
            let rest = items(tokens, pos + 3);
            match rest.value {
                Err(error) => rest,
                Ok(texts) => Read { value: Ok(seq![text] + texts), next: rest.next },
            }
        },
    }
}

/// Whether the closing marker of a list stands at `at`.
pub open spec fn holds_list_end(tokens: Seq<TokenView>, at: int) -> bool {
    0 <= at < tokens.len() && tokens[at] matches TokenView::End(BlockEnd::List(_))
}

/// Reads an unordered list of items that each hold one text run, and gives
/// the texts in order. Where the tokens end before the opening marker, or
/// after the items before the closing marker, the failure is the end of the
/// stream; where another token stands in the place of either marker, it is
/// consumed and the failure says which marker was expected.
pub open spec fn item_list(tokens: Seq<TokenView>, pos: int) -> Read<Seq<Seq<char>>> {
    if pos >= tokens.len() {
        Read { value: Err(ErrorView::EOF), next: pos }
    } else if !holds(tokens, pos, TokenView::Start(BlockView::List(None))) {
        missing(tokens, pos, "expected a list block"@)
    } else {
        let read = items(tokens, pos + 1);
        match read.value {
            Err(error) => read,
            Ok(texts) => if read.next >= tokens.len() {
                Read { value: Err(ErrorView::EOF), next: read.next }
            } else if !holds_list_end(tokens, read.next) {
                missing(tokens, read.next, "expected a end of list"@)
            } else {
                Read { value: Ok(texts), next: read.next + 1 }
            },
        }
    }
}

/// The text of the run that follows the opening token of the span from
/// `start` to `end`, without the white space at its end; empty where the
/// span holds no second token or the second token is no text run.
pub open spec fn literal_text(tokens: Seq<TokenView>, start: int, end: int) -> Seq<char> {
    if start < end && holds_text(tokens, start + 1) {
        trimmed(tokens[start + 1]->Text_0)
    } else {
        Seq::empty()
    }
}

/// Whether a heading of `level` that reads `text` stands at `at`.
pub open spec fn heading_at(tokens: Seq<TokenView>, at: int, level: u8, text: Seq<char>) -> bool {
    &&& holds(tokens, at, TokenView::Start(BlockView::Heading(level)))
    &&& holds(tokens, at + 1, TokenView::Text(text))
    &&& holds(tokens, at + 2, TokenView::End(BlockEnd::Heading(level)))
}

/// Whether the first closing marker `end` from `from` on stands at `last`.
pub open spec fn closes_at(tokens: Seq<TokenView>, from: int, last: int, end: BlockEnd) -> bool {
    &&& 0 <= from <= last < tokens.len()
    &&& tokens[last] == TokenView::End(end)
    &&& forall|i: int| from <= i < last ==> tokens[i] != TokenView::End(end)
}

/// Whether a paragraph or a fenced code block spans from `from` to `last`.
pub open spec fn unit_at(tokens: Seq<TokenView>, from: int, last: int) -> bool {
    ||| holds(tokens, from, TokenView::Start(BlockView::Paragraph)) && closes_at(
        tokens,
        from,
        last,
        BlockEnd::Paragraph,
    )
    ||| holds_fence(tokens, from) && closes_at(tokens, from, last, BlockEnd::CodeBlock)
}

/// Whether a unit of body content spans from the `i`-th of `cuts` to the
/// position before the next.
pub open spec fn unit_between(tokens: Seq<TokenView>, cuts: Seq<int>, i: int) -> bool {
    unit_at(tokens, cuts[i], cuts[i + 1] - 1)
}

/// Whether units of body content stand one after the other, the first of
/// them a paragraph: each starts at one of `cuts` and ends before the next,
/// and after the last of them, at the last of `cuts`, neither a paragraph
/// nor a fenced code block opens.
pub open spec fn body_at(tokens: Seq<TokenView>, cuts: Seq<int>) -> bool {
    &&& cuts.len() >= 2
    &&& holds(tokens, cuts[0], TokenView::Start(BlockView::Paragraph))
    &&& forall|i: int| 0 <= i < cuts.len() - 1 ==> #[trigger] unit_between(tokens, cuts, i)
    &&& !holds(tokens, cuts.last(), TokenView::Start(BlockView::Paragraph))
    &&& !holds_fence(tokens, cuts.last())
}

/// Whether an unordered list stands at `at` whose items each hold one text
/// run, `texts` in this order.
pub open spec fn list_at(tokens: Seq<TokenView>, at: int, texts: Seq<Seq<char>>) -> bool {
    &&& holds(tokens, at, TokenView::Start(BlockView::List(None)))
    &&& forall|k: int|
        #![trigger texts[k]]
        0 <= k < texts.len() ==> {
            &&& holds(tokens, at + 1 + 3 * k, TokenView::Start(BlockView::Item))
            &&& holds(tokens, at + 2 + 3 * k, TokenView::Text(texts[k]))
            &&& holds(tokens, at + 3 + 3 * k, TokenView::End(BlockEnd::Item))
        }
    &&& holds_list_end(tokens, at + 1 + 3 * texts.len())
}

/// What `first_end` gives is the least position from `from` on that holds
/// `end`, and nothing only where no position does.
pub proof fn lemma_first_end(tokens: Seq<TokenView>, from: int, end: BlockEnd)
    requires
        0 <= from,
    ensures
        match first_end(tokens, from, end) {
            Some(last) => closes_at(tokens, from, last, end),
            None => forall|i: int| from <= i < tokens.len() ==> tokens[i] != TokenView::End(end),
        },
    decreases tokens.len() - from,
{
    if from < tokens.len() && tokens[from] != TokenView::End(end) {
        lemma_first_end(tokens, from + 1, end);
    }
}

/// A paragraph that is read spans from its opening marker to the first
/// closing marker of a paragraph after it, and the cursor is left after that.
pub proof fn lemma_paragraph_span(tokens: Seq<TokenView>, pos: int)
    requires
        paragraph(tokens, pos).value is Ok,
    ensures
        paragraph(tokens, pos).value->Ok_0.0 == pos,
        holds(tokens, pos, TokenView::Start(BlockView::Paragraph)),
        pos < paragraph(tokens, pos).value->Ok_0.1,
        closes_at(tokens, pos, paragraph(tokens, pos).value->Ok_0.1, BlockEnd::Paragraph),
        paragraph(tokens, pos).next == paragraph(tokens, pos).value->Ok_0.1 + 1,
{
    lemma_first_end(tokens, pos, BlockEnd::Paragraph);
}

/// A fenced code block that is read spans from its opening marker to the
/// first closing marker of a code block after it, and the cursor is left
/// after that.
pub proof fn lemma_code_block_span(tokens: Seq<TokenView>, pos: int)
    requires
        code_block(tokens, pos).value is Ok,
    ensures
        code_block(tokens, pos).value->Ok_0.0 == pos,
        holds_fence(tokens, pos),
        pos < code_block(tokens, pos).value->Ok_0.1,
        closes_at(tokens, pos, code_block(tokens, pos).value->Ok_0.1, BlockEnd::CodeBlock),
        code_block(tokens, pos).next == code_block(tokens, pos).value->Ok_0.1 + 1,
{
    lemma_first_end(tokens, pos, BlockEnd::CodeBlock);
}

/// A code block in a given language is read exactly where a code block of
/// any language is read and its language tag is that one, and it is then
/// the same span.
pub proof fn lemma_lang_block(tokens: Seq<TokenView>, pos: int, language: Seq<char>)
    ensures
        lang_block(tokens, pos, language).value is Ok <==> code_block(tokens, pos).value is Ok
            && tokens[pos] == TokenView::Start(BlockView::Fence(language)),
        lang_block(tokens, pos, language).value is Ok ==> lang_block(tokens, pos, language)
            == code_block(tokens, pos),
{
}

/// The first closing marker is what `first_end` finds.
pub proof fn lemma_closes_at(tokens: Seq<TokenView>, from: int, last: int, end: BlockEnd)
    requires
        closes_at(tokens, from, last, end),
    ensures
        first_end(tokens, from, end) == Some(last),
    decreases last - from,
{
    if from < last {
        lemma_closes_at(tokens, from + 1, last, end);
    }
}

/// A heading that stands at `pos` is read, at its own level.
pub proof fn lemma_heading_at(tokens: Seq<TokenView>, pos: int, level: u8, text: Seq<char>)
    requires
        heading_at(tokens, pos, level, text),
    ensures
        heading(tokens, pos, level) == (Read { value: Ok(text), next: pos + 3 }),
        named_heading(tokens, pos, level, text) == (Read { value: Ok(()), next: pos + 3 }),
{
}

/// A unit of body content is read exactly where a paragraph or a fenced
/// code block stands, and then as the span of that block.
pub proof fn lemma_unit_at(tokens: Seq<TokenView>, from: int, last: int)
    requires
        unit_at(tokens, from, last),
    ensures
        text(tokens, from) == (Read { value: Ok((from, last)), next: last + 1 }),
{
    if holds(tokens, from, TokenView::Start(BlockView::Paragraph)) {
        lemma_closes_at(tokens, from, last, BlockEnd::Paragraph);
    } else {
        lemma_closes_at(tokens, from, last, BlockEnd::CodeBlock);
        lemma_first_end(tokens, from, BlockEnd::Paragraph);
    }
}

/// A unit of body content that can be read ends at or after the position
/// at which it starts, within the tokens, and leaves the cursor after its end.
pub proof fn lemma_text_advances(tokens: Seq<TokenView>, pos: int)
    requires
        text(tokens, pos).value is Ok,
    ensures
        text(tokens, pos).value->Ok_0.0 == pos,
        0 <= pos <= text(tokens, pos).value->Ok_0.1 < tokens.len(),
        text(tokens, pos).next == text(tokens, pos).value->Ok_0.1 + 1,
{
    if 0 <= pos {
        lemma_first_end(tokens, pos, BlockEnd::Paragraph);
        lemma_first_end(tokens, pos, BlockEnd::CodeBlock);
    }
}

/// Whether the unit of body content that is read at the `i`-th of `starts`
/// ends at the next of `ends` and leaves the cursor at the next of `starts`.
pub open spec fn follows(tokens: Seq<TokenView>, starts: Seq<int>, ends: Seq<int>, i: int) -> bool {
    &&& text(tokens, starts[i]).value matches Ok(span)
    &&& span.1 == ends[i + 1]
    &&& text(tokens, starts[i]).next == starts[i + 1]
}

/// Units of body content read one after the other, the first at
/// `starts[0]` and each next one where the one before ended, up to a
/// position at which none can be read, are what `extended` follows.
pub proof fn lemma_extended(tokens: Seq<TokenView>, starts: Seq<int>, ends: Seq<int>, k: int)
    requires
        starts.len() == ends.len(),
        0 <= k < starts.len(),
        forall|i: int| 0 <= i < starts.len() - 1 ==> #[trigger] follows(tokens, starts, ends, i),
        text(tokens, starts.last()).value is Err,
    ensures
        extended(tokens, starts[k], ends[k]) == (ends.last(), starts.last()),
    decreases starts.len() - k,
{
    if k < starts.len() - 1 {
        assert(follows(tokens, starts, ends, k));
        lemma_text_advances(tokens, starts[k]);
        lemma_extended(tokens, starts, ends, k + 1);
    }
}

/// Body content that stands at `cuts` is read as one span, from the
/// opening of its first paragraph to the closing of its last unit.
pub proof fn lemma_body_at(tokens: Seq<TokenView>, cuts: Seq<int>)
    requires
        body_at(tokens, cuts),
    ensures
        body(tokens, cuts[0]) == (Some((cuts[0], cuts.last() - 1)), cuts.last()),
{
    let starts = cuts.subrange(1, cuts.len() as int);
    let ends = Seq::new(starts.len(), |i: int| starts[i] - 1);
    assert(unit_between(tokens, cuts, 0));
    lemma_unit_at(tokens, cuts[0], cuts[1] - 1);
    assert forall|i: int| 0 <= i < starts.len() - 1 implies #[trigger] follows(
        tokens,
        starts,
        ends,
        i,
    ) by {
        assert(unit_between(tokens, cuts, i + 1));
        lemma_unit_at(tokens, cuts[i + 1], cuts[i + 2] - 1);
    }
    assert(starts.last() == cuts.last());
    lemma_extended(tokens, starts, ends, 0);
}

/// The items of a list that stands at `at` are read in order, from the
/// `k`-th on.
pub proof fn lemma_items_at(tokens: Seq<TokenView>, at: int, texts: Seq<Seq<char>>, k: int)
    requires
        list_at(tokens, at, texts),
        0 <= k <= texts.len(),
    ensures
        items(tokens, at + 1 + 3 * k) == (Read {
            value: Ok(texts.subrange(k, texts.len() as int)),
            next: at + 1 + 3 * texts.len(),
        }),
    decreases texts.len() - k,
{
    if k < texts.len() {
        lemma_items_at(tokens, at, texts, k + 1);
        assert(holds(tokens, at + 2 + 3 * k, TokenView::Text(texts[k])));
        assert(seq![texts[k]] + texts.subrange(k + 1, texts.len() as int) =~= texts.subrange(
            k,
            texts.len() as int,
        ));
    } else {
        assert(texts.subrange(k, texts.len() as int) =~= Seq::<Seq<char>>::empty());
    }
}

/// A list that stands at `at` is read, and gives the texts of its items in
/// order. A list without items gives none.
pub proof fn lemma_list_at(tokens: Seq<TokenView>, at: int, texts: Seq<Seq<char>>)
    requires
        list_at(tokens, at, texts),
    ensures
        item_list(tokens, at) == (Read { value: Ok(texts), next: at + 2 + 3 * texts.len() }),
{
    lemma_items_at(tokens, at, texts, 0);
    assert(texts.subrange(0, texts.len() as int) =~= texts);
}

/// An empty list, its opening marker followed at once by its closing
/// marker, is read and gives no items.
pub proof fn lemma_empty_list(tokens: Seq<TokenView>, pos: int)
    requires
        holds(tokens, pos, TokenView::Start(BlockView::List(None))),
        holds_list_end(tokens, pos + 1),
    ensures
        item_list(tokens, pos) == (Read { value: Ok(Seq::<Seq<char>>::empty()), next: pos + 2 }),
{
    assert(list_at(tokens, pos, Seq::<Seq<char>>::empty()));
    lemma_list_at(tokens, pos, Seq::<Seq<char>>::empty());
}

} // verus!
