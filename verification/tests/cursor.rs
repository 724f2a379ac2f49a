use threatmd::{Block, BlockEnd, Error, HeadingLevel, MarkdownIter, Token};

fn run(text: &str) -> Token {
    Token::Text(text.to_string())
}

fn heading_tokens(level: u8, text: &str) -> Vec<Token> {
    vec![
        Token::Start(Block::Heading(level)),
        run(text),
        Token::End(BlockEnd::Heading(level)),
    ]
}

fn expected(description: &str) -> Error {
    Error::Expected(description.to_string())
}

#[test]
fn next_walks_the_tokens_in_order() {
    let tokens = vec![run("a"), Token::Other];
    let mut cursor = MarkdownIter::new(&tokens);
    assert_eq!(cursor.remaining(), 2);
    assert_eq!(cursor.next(), Some((0, &tokens[0])));
    assert_eq!(cursor.next(), Some((1, &tokens[1])));
    assert_eq!(cursor.next(), None);
    assert_eq!(cursor.next(), None);
    assert_eq!(cursor.remaining(), 0);
}

#[test]
fn take_hands_back_the_token_and_its_position() {
    let tokens = vec![Token::Other, run("a")];
    let mut cursor = MarkdownIter::new(&tokens);
    assert_eq!(cursor.take(|token| matches!(token, Token::Other)), Ok((&tokens[0], 0)));
    assert_eq!(cursor.take(|token| matches!(token, Token::Text(_))), Ok((&tokens[1], 1)));
    assert_eq!(cursor.remaining(), 0);
}

#[test]
fn take_fails_at_the_end_of_the_stream() {
    let tokens: Vec<Token> = Vec::new();
    let mut cursor = MarkdownIter::new(&tokens);
    assert_eq!(cursor.take(|_| true), Err(Error::EOF));
    assert_eq!(cursor.remaining(), 0);
}

#[test]
fn take_consumes_the_token_it_refuses() {
    let tokens = vec![Token::Start(Block::Paragraph), run("a")];
    let mut cursor = MarkdownIter::new(&tokens);
    assert_eq!(
        cursor.take(|token| matches!(token, Token::Text(_))),
        Err(expected("Start(Paragraph)"))
    );
    assert_eq!(cursor.remaining(), 1);
}

#[test]
fn take_map_hands_back_what_the_extractor_makes() {
    let tokens = vec![Token::Start(Block::Heading(3)), Token::Other];
    let mut cursor = MarkdownIter::new(&tokens);
    let level = cursor.take_map(|token| match token {
        Token::Start(Block::Heading(level)) => Some(*level),
        _ => None,
    });
    assert_eq!(level, Ok(3));
    let level = cursor.take_map(|token| match token {
        Token::Start(Block::Heading(level)) => Some(*level),
        _ => None,
    });
    assert_eq!(level, Err(expected("Other")));
    let level = cursor.take_map(|token| match token {
        Token::Start(Block::Heading(level)) => Some(*level),
        _ => None,
    });
    assert_eq!(level, Err(Error::EOF));
}

#[test]
fn take_text_succeeds_only_on_a_text_run() {
    let tokens = vec![run("hello"), Token::End(BlockEnd::Item)];
    let mut cursor = MarkdownIter::new(&tokens);
    assert_eq!(cursor.take_text(), Ok("hello".to_string()));
    assert_eq!(cursor.take_text(), Err(expected("End(Item)")));
    assert_eq!(cursor.take_text(), Err(Error::EOF));
}

#[test]
fn check_does_not_advance() {
    let tokens = vec![run("a")];
    let mut cursor = MarkdownIter::new(&tokens);
    assert_eq!(cursor.check(|token| matches!(token, Token::Text(_))), Ok((&tokens[0], 0)));
    assert_eq!(cursor.remaining(), 1);
    assert_eq!(cursor.check(|token| matches!(token, Token::Other)), Err(expected("Text(a)")));
    assert_eq!(cursor.remaining(), 1);
    cursor.next();
    assert_eq!(cursor.check(|_| true), Err(Error::EOF));
}

#[test]
fn metadata_reads_the_three_tokens() {
    let tokens = vec![
        Token::Start(Block::Metadata),
        run("sid: T1\n"),
        Token::End(BlockEnd::Metadata),
        Token::Other,
    ];
    let mut cursor = MarkdownIter::new(&tokens);
    assert_eq!(cursor.metadata(), Ok("sid: T1\n".to_string()));
    assert_eq!(cursor.remaining(), 1);
}

#[test]
fn metadata_fails_where_the_order_is_broken() {
    let tokens = vec![Token::Start(Block::Metadata), Token::End(BlockEnd::Metadata)];
    let mut cursor = MarkdownIter::new(&tokens);
    assert_eq!(cursor.metadata(), Err(expected("End(Metadata)")));
    assert_eq!(cursor.remaining(), 0);

    let tokens = vec![Token::Start(Block::Metadata), run("a")];
    let mut cursor = MarkdownIter::new(&tokens);
    assert_eq!(cursor.metadata(), Err(Error::EOF));

    let tokens = vec![Token::Start(Block::Paragraph), run("a")];
    let mut cursor = MarkdownIter::new(&tokens);
    assert_eq!(cursor.metadata(), Err(expected("Start(Paragraph)")));
    assert_eq!(cursor.remaining(), 1);
}

#[test]
fn heading_reads_its_text() {
    let tokens = heading_tokens(2, "Example");
    let mut cursor = MarkdownIter::new(&tokens);
    assert_eq!(cursor.heading(HeadingLevel::H2), Ok("Example".to_string()));
    assert_eq!(cursor.remaining(), 0);
}

#[test]
fn heading_of_another_level_is_refused() {
    let tokens = heading_tokens(1, "Example");
    let mut cursor = MarkdownIter::new(&tokens);
    assert_eq!(cursor.heading(HeadingLevel::H2), Err(expected("Start(Heading(H1))")));
    assert_eq!(cursor.remaining(), 2);

    let tokens = heading_tokens(3, "Example");
    let mut cursor = MarkdownIter::new(&tokens);
    assert_eq!(cursor.heading(HeadingLevel::H2), Err(expected("Start(Heading(H3))")));
}

#[test]
fn heading_with_a_closing_marker_of_another_level_is_refused() {
    let tokens = vec![
        Token::Start(Block::Heading(2)),
        run("Example"),
        Token::End(BlockEnd::Heading(4)),
    ];
    let mut cursor = MarkdownIter::new(&tokens);
    assert_eq!(cursor.heading(HeadingLevel::H2), Err(expected("End(Heading(H4))")));
}

#[test]
fn heading_levels_are_numbered_from_one() {
    assert_eq!(HeadingLevel::H1.number(), 1);
    assert_eq!(HeadingLevel::H2.number(), 2);
    assert_eq!(HeadingLevel::H3.number(), 3);
    assert_eq!(HeadingLevel::H4.number(), 4);
    assert_eq!(HeadingLevel::H5.number(), 5);
    assert_eq!(HeadingLevel::H6.number(), 6);
}

#[test]
fn named_heading_wants_the_exact_text() {
    let tokens = heading_tokens(2, "Mitigations");
    let mut cursor = MarkdownIter::new(&tokens);
    assert_eq!(cursor.named_heading(HeadingLevel::H2, "Mitigations"), Ok(()));

    let mut cursor = MarkdownIter::new(&tokens);
    assert_eq!(
        cursor.named_heading(HeadingLevel::H2, "Example"),
        Err(expected("A heading with the content: Example"))
    );
    assert_eq!(cursor.remaining(), 0);

    let mut cursor = MarkdownIter::new(&tokens);
    assert_eq!(
        cursor.named_heading(HeadingLevel::H1, "Mitigations"),
        Err(expected("Start(Heading(H2))"))
    );
}

#[test]
fn paragraph_spans_from_its_opening_to_its_closing_marker() {
    let tokens = vec![
        Token::Other,
        Token::Start(Block::Paragraph),
        run("a"),
        Token::Other,
        run("b"),
        Token::End(BlockEnd::Paragraph),
        Token::Other,
    ];
    let mut cursor = MarkdownIter::new(&tokens);
    cursor.next();
    assert_eq!(cursor.paragraph(), Ok(1..=5));
    assert_eq!(cursor.remaining(), 1);
}

#[test]
fn paragraph_fails_without_consuming_where_none_opens() {
    let tokens = vec![run("a"), Token::End(BlockEnd::Paragraph)];
    let mut cursor = MarkdownIter::new(&tokens);
    assert_eq!(cursor.paragraph(), Err(expected("Text(a)")));
    assert_eq!(cursor.remaining(), 2);

    let tokens: Vec<Token> = Vec::new();
    let mut cursor = MarkdownIter::new(&tokens);
    assert_eq!(cursor.paragraph(), Err(Error::EOF));
}

#[test]
fn paragraph_fails_where_the_stream_ends_before_it_closes() {
    let tokens = vec![Token::Start(Block::Paragraph), run("a"), Token::End(BlockEnd::CodeBlock)];
    let mut cursor = MarkdownIter::new(&tokens);
    assert_eq!(cursor.paragraph(), Err(Error::EOF));
    assert_eq!(cursor.remaining(), 0);
}

#[test]
fn code_block_takes_any_language() {
    let tokens = vec![
        Token::Start(Block::Fence("rust".to_string())),
        run("fn main() {}\n"),
        Token::End(BlockEnd::CodeBlock),
    ];
    let mut cursor = MarkdownIter::new(&tokens);
    assert_eq!(cursor.code_block(), Ok(0..=2));
    assert_eq!(cursor.remaining(), 0);

    let tokens = vec![
        Token::Start(Block::Fence(String::new())),
        Token::End(BlockEnd::CodeBlock),
    ];
    let mut cursor = MarkdownIter::new(&tokens);
    assert_eq!(cursor.code_block(), Ok(0..=1));
}

#[test]
fn code_block_refuses_what_is_no_fence() {
    let tokens = vec![Token::Start(Block::Other), Token::End(BlockEnd::CodeBlock)];
    let mut cursor = MarkdownIter::new(&tokens);
    assert_eq!(cursor.code_block(), Err(expected("Start(Other)")));
    assert_eq!(cursor.remaining(), 2);
}

#[test]
fn code_block_fails_where_the_stream_ends_before_it_closes() {
    let tokens = vec![Token::Start(Block::Fence("rust".to_string())), run("x")];
    let mut cursor = MarkdownIter::new(&tokens);
    assert_eq!(cursor.code_block(), Err(Error::EOF));
    assert_eq!(cursor.remaining(), 0);
}

#[test]
fn lang_block_fails_where_the_stream_ends_before_it_closes() {
    let tokens = vec![
        Token::Start(Block::Fence("python".to_string())),
        run("x = 1\n"),
        Token::End(BlockEnd::Paragraph),
    ];
    let mut cursor = MarkdownIter::new(&tokens);
    assert_eq!(cursor.lang_block("python"), Err(Error::EOF));
    assert_eq!(cursor.remaining(), 0);
}

#[test]
fn code_block_fn_asks_the_predicate() {
    let tokens = vec![
        Token::Start(Block::Fence("rust".to_string())),
        Token::End(BlockEnd::CodeBlock),
    ];
    let mut cursor = MarkdownIter::new(&tokens);
    assert_eq!(cursor.code_block_fn(|_| false), Err(expected("Start(Fence(rust))")));
    assert_eq!(cursor.remaining(), 2);
    assert_eq!(cursor.code_block_fn(|_| true), Ok(0..=1));
}

#[test]
fn lang_block_wants_the_exact_language() {
    let tokens = vec![
        Token::Start(Block::Fence("python".to_string())),
        run("x = 1\n"),
        Token::End(BlockEnd::CodeBlock),
    ];
    let mut cursor = MarkdownIter::new(&tokens);
    assert_eq!(cursor.lang_block("rust"), Err(expected("Start(Fence(python))")));
    assert_eq!(cursor.remaining(), 3);
    assert_eq!(cursor.lang_block("pytho"), Err(expected("Start(Fence(python))")));
    assert_eq!(cursor.remaining(), 3);
    assert_eq!(cursor.lang_block("python"), Ok(0..=2));
    assert_eq!(cursor.remaining(), 0);
}

#[test]
fn text_reads_a_paragraph_or_a_code_block() {
    let tokens = vec![
        Token::Start(Block::Paragraph),
        run("a"),
        Token::End(BlockEnd::Paragraph),
        Token::Start(Block::Fence("sh".to_string())),
        run("ls\n"),
        Token::End(BlockEnd::CodeBlock),
        Token::Start(Block::Heading(2)),
    ];
    let mut cursor = MarkdownIter::new(&tokens);
    assert_eq!(cursor.text(), Ok(0..=2));
    assert_eq!(cursor.text(), Ok(3..=5));
    assert_eq!(
        cursor.text(),
        Err(expected("Expected either one of the functions to return"))
    );
    assert_eq!(cursor.remaining(), 1);
}

#[test]
fn text_tries_the_code_block_from_where_the_paragraph_started() {
    let tokens = vec![Token::Start(Block::Paragraph), run("a")];
    let mut cursor = MarkdownIter::new(&tokens);
    assert_eq!(
        cursor.text(),
        Err(expected("Expected either one of the functions to return"))
    );
    assert_eq!(cursor.remaining(), 2);
}

#[test]
fn item_reads_its_text() {
    let tokens = vec![
        Token::Start(Block::Item),
        run("first"),
        Token::End(BlockEnd::Item),
        Token::End(BlockEnd::List(false)),
    ];
    let mut cursor = MarkdownIter::new(&tokens);
    assert_eq!(cursor.item(), Ok(Some("first".to_string())));
    assert_eq!(cursor.remaining(), 1);
    assert_eq!(cursor.item(), Ok(None));
    assert_eq!(cursor.remaining(), 1);
    cursor.next();
    assert_eq!(cursor.item(), Ok(None));
}

#[test]
fn item_of_another_shape_is_refused() {
    let tokens = vec![
        Token::Start(Block::Item),
        Token::Start(Block::Paragraph),
        run("first"),
    ];
    let mut cursor = MarkdownIter::new(&tokens);
    assert_eq!(cursor.item(), Err(expected("expected a Text block")));
    assert_eq!(cursor.remaining(), 1);

    let tokens = vec![Token::Start(Block::Item)];
    let mut cursor = MarkdownIter::new(&tokens);
    assert_eq!(cursor.item(), Err(expected("expected a Text block")));
    assert_eq!(cursor.remaining(), 0);

    let tokens = vec![Token::Start(Block::Item), run("first"), run("second"), Token::Other];
    let mut cursor = MarkdownIter::new(&tokens);
    assert_eq!(cursor.item(), Err(expected("expected a code block")));
    assert_eq!(cursor.remaining(), 1);

    let tokens = vec![Token::Start(Block::Item), run("first")];
    let mut cursor = MarkdownIter::new(&tokens);
    assert_eq!(cursor.item(), Err(expected("expected a code block")));
    assert_eq!(cursor.remaining(), 0);
}

#[test]
fn item_list_on_an_empty_list_gives_no_items() {
    let tokens = vec![Token::Start(Block::List(None)), Token::End(BlockEnd::List(false))];
    let mut cursor = MarkdownIter::new(&tokens);
    assert_eq!(cursor.item_list(), Ok(Vec::new()));
    assert_eq!(cursor.remaining(), 0);
}

#[test]
fn item_list_gives_the_items_in_order() {
    let tokens = vec![
        Token::Start(Block::List(None)),
        Token::Start(Block::Item),
        run("one"),
        Token::End(BlockEnd::Item),
        Token::Start(Block::Item),
        run("two"),
        Token::End(BlockEnd::Item),
        Token::Start(Block::Item),
        run("three"),
        Token::End(BlockEnd::Item),
        Token::End(BlockEnd::List(false)),
        Token::Other,
    ];
    let mut cursor = MarkdownIter::new(&tokens);
    assert_eq!(
        cursor.item_list(),
        Ok(vec!["one".to_string(), "two".to_string(), "three".to_string()])
    );
    assert_eq!(cursor.remaining(), 1);
}

#[test]
fn item_list_refuses_an_ordered_list() {
    let tokens = vec![Token::Start(Block::List(Some(1))), Token::End(BlockEnd::List(true))];
    let mut cursor = MarkdownIter::new(&tokens);
    assert_eq!(cursor.item_list(), Err(expected("expected a list block")));
    assert_eq!(cursor.remaining(), 1);

    let tokens = vec![run("one"), Token::End(BlockEnd::List(false))];
    let mut cursor = MarkdownIter::new(&tokens);
    assert_eq!(cursor.item_list(), Err(expected("expected a list block")));
    assert_eq!(cursor.remaining(), 1);
}

#[test]
fn item_list_at_the_end_of_the_stream_fails_with_the_end_of_the_stream() {
    let tokens: Vec<Token> = Vec::new();
    let mut cursor = MarkdownIter::new(&tokens);
    assert_eq!(cursor.item_list(), Err(Error::EOF));
    assert_eq!(cursor.remaining(), 0);

    let tokens = vec![Token::Other];
    let mut cursor = MarkdownIter::new(&tokens);
    cursor.next();
    assert_eq!(cursor.item_list(), Err(Error::EOF));
    assert_eq!(cursor.remaining(), 0);
}

#[test]
fn item_list_fails_on_one_malformed_item() {
    let tokens = vec![
        Token::Start(Block::List(None)),
        Token::Start(Block::Item),
        run("one"),
        Token::End(BlockEnd::Item),
        Token::Start(Block::Item),
        Token::Start(Block::Paragraph),
        run("two"),
        Token::End(BlockEnd::Paragraph),
        Token::End(BlockEnd::Item),
        Token::End(BlockEnd::List(false)),
    ];
    let mut cursor = MarkdownIter::new(&tokens);
    assert_eq!(cursor.item_list(), Err(expected("expected a Text block")));
}

#[test]
fn item_list_wants_its_closing_marker() {
    let tokens = vec![
        Token::Start(Block::List(None)),
        Token::Start(Block::Item),
        run("one"),
        Token::End(BlockEnd::Item),
        Token::Other,
        Token::Other,
    ];
    let mut cursor = MarkdownIter::new(&tokens);
    assert_eq!(cursor.item_list(), Err(expected("expected a end of list")));
    assert_eq!(cursor.remaining(), 1);

    let tokens = vec![Token::Start(Block::List(None)), Token::End(BlockEnd::Item)];
    let mut cursor = MarkdownIter::new(&tokens);
    assert_eq!(cursor.item_list(), Err(expected("expected a end of list")));
    assert_eq!(cursor.remaining(), 0);
}

#[test]
fn item_list_that_is_never_closed_fails_with_the_end_of_the_stream() {
    let tokens = vec![Token::Start(Block::List(None))];
    let mut cursor = MarkdownIter::new(&tokens);
    assert_eq!(cursor.item_list(), Err(Error::EOF));
    assert_eq!(cursor.remaining(), 0);

    let tokens = vec![
        Token::Start(Block::List(None)),
        Token::Start(Block::Item),
        run("one"),
        Token::End(BlockEnd::Item),
    ];
    let mut cursor = MarkdownIter::new(&tokens);
    assert_eq!(cursor.item_list(), Err(Error::EOF));
    assert_eq!(cursor.remaining(), 0);
}

#[test]
fn tokens_are_described_by_their_shape() {
    assert_eq!(Token::Other.describe(), "Other");
    assert_eq!(run("a b").describe(), "Text(a b)");
    assert_eq!(Token::Start(Block::Metadata).describe(), "Start(Metadata)");
    assert_eq!(Token::Start(Block::Heading(6)).describe(), "Start(Heading(H6))");
    assert_eq!(Token::Start(Block::Heading(9)).describe(), "Start(Heading(H?))");
    assert_eq!(Token::Start(Block::List(Some(3))).describe(), "Start(List)");
    assert_eq!(Token::Start(Block::Item).describe(), "Start(Item)");
    assert_eq!(Token::End(BlockEnd::CodeBlock).describe(), "End(CodeBlock)");
    assert_eq!(Token::End(BlockEnd::List(true)).describe(), "End(List)");
    assert_eq!(Token::End(BlockEnd::Heading(2)).describe(), "End(Heading(H2))");
    assert_eq!(Token::End(BlockEnd::Other).describe(), "End(Other)");
}

#[test]
fn tokens_answer_what_they_open_and_close() {
    let fence = Token::Start(Block::Fence("python".to_string()));
    assert!(fence.starts_fence());
    assert!(fence.starts(&Block::Fence("python".to_string())));
    assert!(!fence.starts(&Block::Fence("rust".to_string())));
    assert!(!fence.starts(&Block::Paragraph));
    assert!(!run("python").starts_fence());
    assert!(Token::Start(Block::List(None)).starts(&Block::List(None)));
    assert!(!Token::Start(Block::List(Some(2))).starts(&Block::List(None)));
    assert!(!Token::Start(Block::List(Some(2))).starts(&Block::List(Some(3))));
    assert!(Token::Start(Block::List(Some(2))).starts(&Block::List(Some(2))));
    assert!(Token::End(BlockEnd::List(true)).ends_list());
    assert!(Token::End(BlockEnd::List(false)).ends_list());
    assert!(!Token::End(BlockEnd::Item).ends_list());
    assert!(Token::End(BlockEnd::Heading(2)).ends(BlockEnd::Heading(2)));
    assert!(!Token::End(BlockEnd::Heading(2)).ends(BlockEnd::Heading(3)));
    assert_eq!(run("a").text(), Some("a".to_string()));
    assert_eq!(Token::Other.text(), None);
}
