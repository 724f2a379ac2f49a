use vstd::prelude::*;
use vstd::string::StringExecFns;

verus! {

/// The level of a heading.
#[derive(Clone, Copy, Debug, PartialEq, Eq, Structural)]
pub enum HeadingLevel {
    H1,
    H2,
    H3,
    H4,
    H5,
    H6,
}

impl HeadingLevel {
    /// The level as a number, 1 for the topmost.
    pub open spec fn rank(self) -> u8 {
        match self {
            HeadingLevel::H1 => 1,
            HeadingLevel::H2 => 2,
            HeadingLevel::H3 => 3,
            HeadingLevel::H4 => 4,
            HeadingLevel::H5 => 5,
            HeadingLevel::H6 => 6,
        }
    }

    #[verifier::when_used_as_spec(rank)]
    pub fn number(self) -> (n: u8)
        ensures
            n == self.rank(),
    {
        match self {
            HeadingLevel::H1 => 1,
            HeadingLevel::H2 => 2,
            HeadingLevel::H3 => 3,
            HeadingLevel::H4 => 4,
            HeadingLevel::H5 => 5,
            HeadingLevel::H6 => 6,
        }
    }
}

/// What an opening marker opens.
#[derive(Debug, PartialEq, Eq)]
pub enum Block {
    /// A metadata block in YAML style.
    Metadata,
    /// A heading; the field is its level, 1 for the topmost.
    Heading(u8),
    Paragraph,
    /// A fenced code block; the field is its language tag, which may be empty.
    Fence(String),
    /// A list; an ordered list carries the number of its first item.
    List(Option<u64>),
    Item,
    /// Any other block.
    Other,
}

/// What a closing marker closes.
#[derive(Clone, Copy, Debug, PartialEq, Eq, Structural)]
pub enum BlockEnd {
    Metadata,
    Heading(u8),
    Paragraph,
    /// A code block, fenced or indented.
    CodeBlock,
    /// A list; the field is true for an ordered list.
    List(bool),
    Item,
    Other,
}

/// One unit of a tokenized document.
#[derive(Debug, PartialEq, Eq)]
pub enum Token {
    Start(Block),
    End(BlockEnd),
    /// A run of text.
    Text(String),
    /// Any other leaf.
    Other,
}

/// A [`Block`] as contracts speak of it.
pub enum BlockView {
    Metadata,
    Heading(u8),
    Paragraph,
    Fence(Seq<char>),
    List(Option<u64>),
    Item,
    Other,
}

/// A [`Token`] as contracts speak of it.
pub enum TokenView {
    Start(BlockView),
    End(BlockEnd),
    Text(Seq<char>),
    Other,
}

impl View for Block {
    type V = BlockView;

    open spec fn view(&self) -> BlockView {
        match self {
            Block::Metadata => BlockView::Metadata,
            Block::Heading(level) => BlockView::Heading(*level),
            Block::Paragraph => BlockView::Paragraph,
            Block::Fence(language) => BlockView::Fence(language@),
            Block::List(first) => BlockView::List(*first),
            Block::Item => BlockView::Item,
            Block::Other => BlockView::Other,
        }
    }
}

impl View for Token {
    type V = TokenView;

    open spec fn view(&self) -> TokenView {
        match self {
            Token::Start(block) => TokenView::Start(block@),
            Token::End(end) => TokenView::End(*end),
            Token::Text(text) => TokenView::Text(text@),
            Token::Other => TokenView::Other,
        }
    }
}

/// How a heading level is written in a description.
pub open spec fn level_name(level: u8) -> Seq<char> {
    if level == 1 {
        "H1"@
    } else if level == 2 {
        "H2"@
    } else if level == 3 {
        "H3"@
    } else if level == 4 {
        "H4"@
    } else if level == 5 {
        "H5"@
    } else if level == 6 {
        "H6"@
    } else {
        "H?"@
    }
}

/// How an opening marker is written in a description.
pub open spec fn block_name(block: BlockView) -> Seq<char> {
    match block {
        BlockView::Metadata => "Metadata"@,
        BlockView::Heading(level) => "Heading("@ + level_name(level) + ")"@,
        BlockView::Paragraph => "Paragraph"@,
        BlockView::Fence(language) => "Fence("@ + language + ")"@,
        BlockView::List(_) => "List"@,
        BlockView::Item => "Item"@,
        BlockView::Other => "Other"@,
    }
}

/// How a closing marker is written in a description.
pub open spec fn end_name(end: BlockEnd) -> Seq<char> {
    match end {
        BlockEnd::Metadata => "Metadata"@,
        BlockEnd::Heading(level) => "Heading("@ + level_name(level) + ")"@,
        BlockEnd::Paragraph => "Paragraph"@,
        BlockEnd::CodeBlock => "CodeBlock"@,
        BlockEnd::List(_) => "List"@,
        BlockEnd::Item => "Item"@,
        BlockEnd::Other => "Other"@,
    }
}

/// How a token is written in the description of an error.
pub open spec fn description(token: TokenView) -> Seq<char> {
    match token {
        TokenView::Start(block) => "Start("@ + block_name(block) + ")"@,
        TokenView::End(end) => "End("@ + end_name(end) + ")"@,
        TokenView::Text(text) => "Text("@ + text + ")"@,
        TokenView::Other => "Other"@,
    }
}

fn level_text(level: u8) -> (name: &'static str)
    ensures
        name@ == level_name(level),
{
    if level == 1 {
        "H1"
    } else if level == 2 {
        "H2"
    } else if level == 3 {
        "H3"
    } else if level == 4 {
        "H4"
    } else if level == 5 {
        "H5"
    } else if level == 6 {
        "H6"
    } else {
        "H?"
    }
}

impl Block {
    /// Whether `self` and `other` are the same marker.
    pub fn same(&self, other: &Block) -> (equal: bool)
        ensures
            equal == (self@ == other@),
    {
        match (self, other) {
            (Block::Metadata, Block::Metadata) => true,
            (Block::Heading(a), Block::Heading(b)) => *a == *b,
            (Block::Paragraph, Block::Paragraph) => true,
            (Block::Fence(a), Block::Fence(b)) => *a == *b,
            (Block::List(a), Block::List(b)) => match (a, b) {
                (None, None) => true,
                (Some(x), Some(y)) => *x == *y,
                _ => false,
            },
            (Block::Item, Block::Item) => true,
            (Block::Other, Block::Other) => true,
            _ => false,
        }
    }

    /// The name of this marker in a description.
    pub fn describe(&self) -> (text: String)
        ensures
            text@ == block_name(self@),
    {
        match self {
            Block::Metadata => String::from_str("Metadata"),
            Block::Heading(level) => String::from_str("Heading(").concat(level_text(*level)).concat(")"),
            Block::Paragraph => String::from_str("Paragraph"),
            Block::Fence(language) => String::from_str("Fence(").concat(language.as_str()).concat(")"),
            Block::List(_) => String::from_str("List"),
            Block::Item => String::from_str("Item"),
            Block::Other => String::from_str("Other"),
        }
    }
}

impl BlockEnd {
    /// The name of this marker in a description.
    pub fn describe(&self) -> (text: String)
        ensures
            text@ == end_name(*self),
    {
        match self {
            BlockEnd::Metadata => String::from_str("Metadata"),
            BlockEnd::Heading(level) => String::from_str("Heading(").concat(level_text(*level)).concat(")"),
            BlockEnd::Paragraph => String::from_str("Paragraph"),
            BlockEnd::CodeBlock => String::from_str("CodeBlock"),
            BlockEnd::List(_) => String::from_str("List"),
            BlockEnd::Item => String::from_str("Item"),
            BlockEnd::Other => String::from_str("Other"),
        }
    }
}

impl Token {
    /// Whether this token opens `block`.
    pub fn starts(&self, block: &Block) -> (opens: bool)
        ensures
            opens == (self@ == TokenView::Start(block@)),
    {
        match self {
            Token::Start(found) => found.same(block),
            _ => false,
        }
    }

    /// Whether this token opens a fenced code block, whatever its language.
    pub fn starts_fence(&self) -> (opens: bool)
        ensures
            opens == (self@ matches TokenView::Start(BlockView::Fence(_))),
    {
        match self {
            Token::Start(Block::Fence(_)) => true,
            _ => false,
        }
    }

    /// Whether this token closes `end`.
    pub fn ends(&self, end: BlockEnd) -> (closes: bool)
        ensures
            closes == (self@ == TokenView::End(end)),
    {
        match self {
            Token::End(found) => *found == end,
            _ => false,
        }
    }

    /// Whether this token closes a list, ordered or not.
    pub fn ends_list(&self) -> (closes: bool)
        ensures
            closes == (self@ matches TokenView::End(BlockEnd::List(_))),
    {
        match self {
            Token::End(BlockEnd::List(_)) => true,
            _ => false,
        }
    }

    /// The text of a text run, a copy of it.
    pub fn text(&self) -> (text: Option<String>)
        ensures
            match text {
                Some(text) => self@ == TokenView::Text(text@),
                None => !(self@ is Text),
            },
    {
        match self {
            Token::Text(text) => Some(text.clone()),
            _ => None,
        }
    }

    /// This token as the description of an error has it.
    pub fn describe(&self) -> (text: String)
        ensures
            text@ == description(self@),
    {
        match self {
            Token::Start(block) => String::from_str("Start(").concat(block.describe().as_str()).concat(")"),
            Token::End(end) => String::from_str("End(").concat(end.describe().as_str()).concat(")"),
            Token::Text(text) => String::from_str("Text(").concat(text.as_str()).concat(")"),
            Token::Other => String::from_str("Other"),
        }
    }
}

/// The tokens of `tokens` as contracts speak of them.
pub open spec fn views(tokens: Seq<Token>) -> Seq<TokenView> {
    Seq::new(tokens.len(), |i: int| tokens[i]@)
}

} // verus!
