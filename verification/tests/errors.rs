use threatmd::Error;

#[test]
fn end_of_stream_message() {
    assert_eq!(Error::EOF.message(), "End of stream reached");
}

#[test]
fn expected_token_message() {
    assert_eq!(Error::Expected("Start(Paragraph)".to_string()).message(), "Expected token");
}
