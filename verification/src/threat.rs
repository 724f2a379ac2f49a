//! The grammar of a threat document: a title, its details, and the
//! sections "Example", "Mitigations", "Condition", "Prerequisites" and
//! "References", in this order.

use std::ops::RangeInclusive;
use vstd::prelude::*;
use vstd::string::StringExecFns;

use crate::cursor::{texts, MarkdownIter};
use crate::error::{Error, ErrorView};
use crate::grammar;
use crate::grammar::Read;
use crate::span::{bounds, some_bounds, untouched};
use crate::token::{BlockEnd, BlockView, HeadingLevel, TokenView};

verus! {

/// What a threat document holds after its metadata block. A run of body
/// content is given as the span of its tokens, or as nothing where the
/// document has none at that place.
#[derive(Debug, PartialEq, Eq)]
pub struct Sections {
    /// The text of the title.
    pub description: String,
    /// The body content under the title.
    pub details: Option<RangeInclusive<usize>>,
    /// The body content under "Example".
    pub example: Option<RangeInclusive<usize>>,
    /// The body content under "Mitigations".
    pub mitigations: Option<RangeInclusive<usize>>,
    /// The code block under "Condition".
    pub condition: RangeInclusive<usize>,
    /// The body content under "Prerequisites".
    pub prerequisites: Option<RangeInclusive<usize>>,
    /// The items under "References", joined by a comma and a space.
    pub references: String,
}

/// [`Sections`] as contracts speak of them: a span is the pair of its first
/// and its last position.
pub struct SectionsView {
    pub description: Seq<char>,
    pub details: Option<(int, int)>,
    pub example: Option<(int, int)>,
    pub mitigations: Option<(int, int)>,
    pub condition: (int, int),
    pub prerequisites: Option<(int, int)>,
    pub references: Seq<char>,
}

impl View for Sections {
    type V = SectionsView;

    open spec fn view(&self) -> SectionsView {
        SectionsView {
            description: self.description@,
            details: some_bounds(self.details),
            example: some_bounds(self.example),
            mitigations: some_bounds(self.mitigations),
            condition: bounds(self.condition),
            prerequisites: some_bounds(self.prerequisites),
            references: self.references@,
        }
    }
}

impl Sections {
    /// Whether no span of these sections has been walked.
    pub open spec fn untouched(self) -> bool {
        &&& untouched(self.details)
        &&& untouched(self.example)
        &&& untouched(self.mitigations)
        &&& !self.condition@.exhausted
        &&& untouched(self.prerequisites)
    }
}

/// `items` one after the other, with `separator` between each two.
pub open spec fn joined(items: Seq<Seq<char>>, separator: Seq<char>) -> Seq<char>
    decreases items.len(),
{
    if items.len() == 0 {
        Seq::empty()
    } else if items.len() == 1 {
        items[0]
    } else {
        joined(items.drop_last(), separator) + separator + items.last()
    }
}

/// `items` one after the other, with `separator` between each two.
pub fn join(items: &Vec<String>, separator: &str) -> (text: String)
    ensures
        text@ == joined(texts(items@), separator@),
{
    let mut text = String::new();
    let mut i: usize = 0;
    while i < items.len()
        invariant
            i <= items.len(),
            text@ == joined(texts(items@).subrange(0, i as int), separator@),
        decreases items.len() - i,
    {
        if i > 0 {
            text.append(separator);
        }
        text.append(items[i].as_str());
        proof {
            let before = texts(items@).subrange(0, i as int);
            let now = texts(items@).subrange(0, i + 1);
            assert(now.drop_last() =~= before);
            assert(now.last() == items@[i as int]@);
            if i == 0 {
                assert(Seq::<char>::empty() + items@[0]@ =~= items@[0]@);
            }
        }
        i += 1;
    }
    assert(texts(items@).subrange(0, items@.len() as int) =~= texts(items@));
    text
}

/// The failure of `read`, as the failure of a read of something else.
pub open spec fn failed<A, B>(read: Read<A>) -> Read<B> {
    Read { value: Err(read.value->Err_0), next: read.next }
}

/// The language of the code block under "Condition".
pub open spec fn condition_language() -> Seq<char> {
    "python"@
}

/// Reads the sections of a threat document: a heading of the first level;
/// body content; then under headings of the second level, which read
/// "Example", "Mitigations", "Condition", "Prerequisites" and "References":
/// body content, body content, a code block in Python, body content, and a
/// list. Body content may be missing; anything else that is missing is the
/// failure of the whole.
pub open spec fn sections(tokens: Seq<TokenView>, pos: int) -> Read<SectionsView> {
    let title = grammar::heading(tokens, pos, 1);
    if title.value is Err {
        failed(title)
    } else {
        let details = grammar::body(tokens, title.next);
        let first = grammar::named_heading(tokens, details.1, 2, "Example"@);
        if first.value is Err {
            failed(first)
        } else {
            let example = grammar::body(tokens, first.next);
            let second = grammar::named_heading(tokens, example.1, 2, "Mitigations"@);
            if second.value is Err {
                failed(second)
            } else {
                let mitigations = grammar::body(tokens, second.next);
                let third = grammar::named_heading(tokens, mitigations.1, 2, "Condition"@);
                if third.value is Err {
                    failed(third)
                } else {
                    let condition = grammar::lang_block(tokens, third.next, condition_language());
                    if condition.value is Err {
                        failed(condition)
                    } else {
                        let fourth = grammar::named_heading(
                            tokens,
                            condition.next,
                            2,
                            "Prerequisites"@,
                        );
                        if fourth.value is Err {
                            failed(fourth)
                        } else {
                            let prerequisites = grammar::body(tokens, fourth.next);
                            let fifth = grammar::named_heading(
                                tokens,
                                prerequisites.1,
                                2,
                                "References"@,
                            );
                            if fifth.value is Err {
                                failed(fifth)
                            } else {
                                let list = grammar::item_list(tokens, fifth.next);
                                if list.value is Err {
                                    failed(list)
                                } else {
                                    Read {
                                        value: Ok(
                                            SectionsView {
                                                description: title.value->Ok_0,
                                                details: details.0,
                                                example: example.0,
                                                mitigations: mitigations.0,
                                                condition: condition.value->Ok_0,
                                                prerequisites: prerequisites.0,
                                                references: joined(list.value->Ok_0, ", "@),
                                            },
                                        ),
                                        next: list.next,
                                    }
                                }
                            }
                        }
                    }
                }
            }
        }
    }
}

/// What `read_sections` hands back as contracts speak of it.
pub open spec fn sections_result(result: Result<Sections, Error>) -> Result<
    SectionsView,
    ErrorView,
> {
    match result {
        Ok(sections) => Ok(sections@),
        Err(error) => Err(error@),
    }
}

/// Reads the sections of a threat document from `cursor`, which stands
/// after the metadata block. The first thing that is missing aborts the
/// reading; the cursor then stays where that read left it.
pub fn read_sections(cursor: &mut MarkdownIter) -> (found: Result<Sections, Error>)
    ensures
        MarkdownIter::reads(
            *old(cursor),
            *final(cursor),
            sections_result(found),
            sections(old(cursor).tokens(), old(cursor).position()),
        ),
        found matches Ok(sections) ==> sections.untouched(),
{
    let description = cursor.heading(HeadingLevel::H1)?;
    let details = cursor.body();
    cursor.named_heading(HeadingLevel::H2, "Example")?;
    let example = cursor.body();
    cursor.named_heading(HeadingLevel::H2, "Mitigations")?;
    let mitigations = cursor.body();
    cursor.named_heading(HeadingLevel::H2, "Condition")?;
    let condition = cursor.lang_block("python")?;
    cursor.named_heading(HeadingLevel::H2, "Prerequisites")?;
    let prerequisites = cursor.body();
    cursor.named_heading(HeadingLevel::H2, "References")?;
    let references = join(&cursor.item_list()?, ", ");
    Ok(
        Sections {
            description,
            details,
            example,
            mitigations,
            condition,
            prerequisites,
            references,
        },
    )
}

/// Where the parts of a well-formed threat document stand. Each run of
/// body content is given by the positions at which its units start,
/// followed by the position after the last of them.
pub struct Layout {
    /// The text of the title.
    pub title: Seq<char>,
    /// The body content under the title.
    pub details: Seq<int>,
    /// The body content under "Example".
    pub example: Seq<int>,
    /// The body content under "Mitigations".
    pub mitigations: Seq<int>,
    /// The position of the closing marker of the code block under "Condition".
    pub condition: int,
    /// The body content under "Prerequisites".
    pub prerequisites: Seq<int>,
    /// The texts of the items under "References".
    pub references: Seq<Seq<char>>,
}

/// Whether a section stands at `at`: a heading of the second level that
/// reads `name`, and after it body content that starts at the first of `cuts`.
pub open spec fn section_at(tokens: Seq<TokenView>, at: int, name: Seq<char>, cuts: Seq<int>) -> bool {
    &&& grammar::heading_at(tokens, at, 2, name)
    &&& grammar::body_at(tokens, cuts)
    &&& cuts[0] == at + 3
}

/// Whether the tokens from `pos` on are a threat document with every part
/// present, laid out as `layout` says: the title and its details, then the
/// sections in their order, each with its body content, the condition a
/// code block in Python, the references an unordered list.
pub open spec fn laid_out(tokens: Seq<TokenView>, pos: int, layout: Layout) -> bool {
    &&& grammar::heading_at(tokens, pos, 1, layout.title)
    &&& grammar::body_at(tokens, layout.details)
    &&& layout.details[0] == pos + 3
    &&& section_at(tokens, layout.details.last(), "Example"@, layout.example)
    &&& section_at(tokens, layout.example.last(), "Mitigations"@, layout.mitigations)
    &&& grammar::heading_at(tokens, layout.mitigations.last(), 2, "Condition"@)
    &&& grammar::holds(
        tokens,
        layout.mitigations.last() + 3,
        TokenView::Start(BlockView::Fence(condition_language())),
    )
    &&& grammar::closes_at(
        tokens,
        layout.mitigations.last() + 3,
        layout.condition,
        BlockEnd::CodeBlock,
    )
    &&& section_at(tokens, layout.condition + 1, "Prerequisites"@, layout.prerequisites)
    &&& grammar::heading_at(tokens, layout.prerequisites.last(), 2, "References"@)
    &&& grammar::list_at(tokens, layout.prerequisites.last() + 3, layout.references)
}

/// What is read of a document that is laid out as `layout` says.
pub open spec fn laid_out_sections(layout: Layout) -> SectionsView {
    SectionsView {
        description: layout.title,
        details: Some((layout.details[0], layout.details.last() - 1)),
        example: Some((layout.example[0], layout.example.last() - 1)),
        mitigations: Some((layout.mitigations[0], layout.mitigations.last() - 1)),
        condition: (layout.mitigations.last() + 3, layout.condition),
        prerequisites: Some((layout.prerequisites[0], layout.prerequisites.last() - 1)),
        references: joined(layout.references, ", "@),
    }
}

/// Every well-formed threat document is read: the metadata block gives its
/// text, and the sections after it are read with no field absent, each
/// run of body content as the span of all its units, up to the closing
/// marker of the list of references.
pub proof fn lemma_well_formed_document_is_read(
    tokens: Seq<TokenView>,
    metadata: Seq<char>,
    layout: Layout,
)
    requires
        grammar::holds(tokens, 0, TokenView::Start(BlockView::Metadata)),
        grammar::holds(tokens, 1, TokenView::Text(metadata)),
        grammar::holds(tokens, 2, TokenView::End(BlockEnd::Metadata)),
        laid_out(tokens, 3, layout),
    ensures
        grammar::metadata(tokens, 0) == (Read { value: Ok(metadata), next: 3 }),
        sections(tokens, 3) == (Read {
            value: Ok(laid_out_sections(layout)),
            next: layout.prerequisites.last() + 5 + 3 * layout.references.len(),
        }),
        laid_out_sections(layout).details is Some,
        laid_out_sections(layout).example is Some,
        laid_out_sections(layout).mitigations is Some,
        laid_out_sections(layout).prerequisites is Some,
{
    grammar::lemma_heading_at(tokens, 3, 1, layout.title);
    grammar::lemma_body_at(tokens, layout.details);
    grammar::lemma_heading_at(tokens, layout.details.last(), 2, "Example"@);
    grammar::lemma_body_at(tokens, layout.example);
    grammar::lemma_heading_at(tokens, layout.example.last(), 2, "Mitigations"@);
    grammar::lemma_body_at(tokens, layout.mitigations);
    grammar::lemma_heading_at(tokens, layout.mitigations.last(), 2, "Condition"@);
    grammar::lemma_closes_at(
        tokens,
        layout.mitigations.last() + 3,
        layout.condition,
        BlockEnd::CodeBlock,
    );
    grammar::lemma_heading_at(tokens, layout.condition + 1, 2, "Prerequisites"@);
    grammar::lemma_body_at(tokens, layout.prerequisites);
    grammar::lemma_heading_at(tokens, layout.prerequisites.last(), 2, "References"@);
    grammar::lemma_list_at(tokens, layout.prerequisites.last() + 3, layout.references);
}

/// A document in which the heading "Mitigations" is missing is refused at
/// the place where that heading is asked for: where a token stands there
/// that opens no heading of the second level, or a whole heading of the
/// second level that reads something else, the reading fails with what was
/// expected, and no sections are read.
pub proof fn lemma_missing_mitigations_is_refused(
    tokens: Seq<TokenView>,
    pos: int,
    title: Seq<char>,
    details: Seq<int>,
    example: Seq<int>,
    found: Seq<char>,
)
    requires
        grammar::heading_at(tokens, pos, 1, title),
        grammar::body_at(tokens, details),
        details[0] == pos + 3,
        section_at(tokens, details.last(), "Example"@, example),
        example.last() < tokens.len(),
        found != "Mitigations"@,
        grammar::holds(tokens, example.last(), TokenView::Start(BlockView::Heading(2)))
            ==> grammar::heading_at(tokens, example.last(), 2, found),
    ensures
        sections(tokens, pos).value matches Err(ErrorView::Expected(_)),
        sections(tokens, pos).next <= example.last() + 3,
{
    grammar::lemma_heading_at(tokens, pos, 1, title);
    grammar::lemma_body_at(tokens, details);
    grammar::lemma_heading_at(tokens, details.last(), 2, "Example"@);
    grammar::lemma_body_at(tokens, example);
    if grammar::holds(tokens, example.last(), TokenView::Start(BlockView::Heading(2))) {
        grammar::lemma_heading_at(tokens, example.last(), 2, found);
    }
}

} // verus!
