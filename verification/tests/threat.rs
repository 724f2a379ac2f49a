use threatmd::threat::{join, read_sections};
use threatmd::{Error, MarkdownParser};

const THREAT: &str = "---\nsid: \"T1\"\nseverity: \"high\"\ntarget: [\"user\"]\nlikelihood: \"medium\"\n---\n\n# Spoofing of session token\n\nAn attacker steals the token of a session.\n\n## Example\n\nA cookie is read from a shared machine.\n\n## Mitigations\n\nRotate tokens.\n\nBind them to the client.\n\n## Condition\n\n```python\ntarget.hasToken is True\n```\n\n## Prerequisites\n\nAccess to the network.\n\n## References\n\n- CAPEC-593\n- CWE-384\n";

fn strings(items: &[&str]) -> Vec<String> {
    items.iter().map(|item| item.to_string()).collect()
}

#[test]
fn a_whole_threat_document_fills_every_field() {
    let parser = MarkdownParser::new(THREAT);
    let mut cursor = parser.iter();
    let metadata = cursor.metadata().unwrap();
    assert_eq!(
        metadata,
        "sid: \"T1\"\nseverity: \"high\"\ntarget: [\"user\"]\nlikelihood: \"medium\"\n"
    );
    let sections = read_sections(&mut cursor).unwrap();
    assert_eq!(cursor.remaining(), 0);
    assert_eq!(sections.description, "Spoofing of session token");
    assert!(sections.details.is_some());
    assert!(sections.example.is_some());
    assert!(sections.mitigations.is_some());
    assert!(sections.prerequisites.is_some());
    assert_eq!(
        parser.to_string(sections.details),
        "An attacker steals the token of a session."
    );
    assert_eq!(parser.to_string(sections.example), "A cookie is read from a shared machine.");
    assert_eq!(
        parser.to_string(sections.mitigations),
        "Rotate tokens.\n\nBind them to the client."
    );
    assert_eq!(parser.get_text(sections.condition), "target.hasToken is True");
    assert_eq!(parser.to_string(sections.prerequisites), "Access to the network.");
    assert_eq!(sections.references, "CAPEC-593, CWE-384");
}

#[test]
fn a_document_without_mitigations_is_refused_at_that_heading() {
    let text = THREAT.replace("## Mitigations\n\nRotate tokens.\n\nBind them to the client.\n\n", "");
    let parser = MarkdownParser::new(&text);
    let mut cursor = parser.iter();
    assert!(cursor.metadata().is_ok());
    assert_eq!(
        read_sections(&mut cursor),
        Err(Error::Expected("A heading with the content: Mitigations".to_string()))
    );
}

#[test]
fn a_document_that_ends_early_is_refused_at_the_end_of_the_stream() {
    let text = "# Title\n\nDetails.\n";
    let parser = MarkdownParser::new(text);
    let mut cursor = parser.iter();
    assert_eq!(read_sections(&mut cursor), Err(Error::EOF));
}

#[test]
fn a_document_without_metadata_is_refused() {
    let parser = MarkdownParser::new("# Title\n");
    let mut cursor = parser.iter();
    assert_eq!(cursor.metadata(), Err(Error::Expected("Start(Heading(H1))".to_string())));
}

#[test]
fn a_condition_in_another_language_is_refused() {
    let text = THREAT.replace("```python", "```rust");
    let parser = MarkdownParser::new(&text);
    let mut cursor = parser.iter();
    assert!(cursor.metadata().is_ok());
    assert_eq!(
        read_sections(&mut cursor),
        Err(Error::Expected("Start(Fence(rust))".to_string()))
    );
}

#[test]
fn an_ordered_list_of_references_is_refused() {
    let text = THREAT.replace("- CAPEC-593\n- CWE-384\n", "1. CAPEC-593\n2. CWE-384\n");
    let parser = MarkdownParser::new(&text);
    let mut cursor = parser.iter();
    assert!(cursor.metadata().is_ok());
    assert_eq!(
        read_sections(&mut cursor),
        Err(Error::Expected("expected a list block".to_string()))
    );
}

#[test]
fn sections_without_body_content_leave_their_fields_absent() {
    let text = "# T\n\n## Example\n\n## Mitigations\n\n## Condition\n\n```python\n```\n\n## Prerequisites\n\n## References\n\n- one\n";
    let parser = MarkdownParser::new(text);
    let mut cursor = parser.iter();
    let sections = read_sections(&mut cursor).unwrap();
    assert_eq!(sections.description, "T");
    assert_eq!(sections.details, None);
    assert_eq!(sections.example, None);
    assert_eq!(sections.mitigations, None);
    assert_eq!(sections.prerequisites, None);
    assert_eq!(parser.to_string(sections.details), "");
    assert_eq!(parser.get_text(sections.condition), "");
    assert_eq!(sections.references, "one");
}

#[test]
fn join_puts_the_separator_between_each_two() {
    assert_eq!(join(&strings(&[]), ", "), "");
    assert_eq!(join(&strings(&["a"]), ", "), "a");
    assert_eq!(join(&strings(&["a", "b"]), ", "), "a, b");
    assert_eq!(join(&strings(&["a", "", "c"]), "--"), "a----c");
    assert_eq!(join(&strings(&["a", "b", "c"]), ""), "abc");
}

#[test]
fn a_document_that_ends_before_its_references_is_refused_at_the_end_of_the_stream() {
    let text = THREAT.replace("- CAPEC-593\n- CWE-384\n", "");
    let parser = MarkdownParser::new(&text);
    let mut cursor = parser.iter();
    assert!(cursor.metadata().is_ok());
    assert_eq!(read_sections(&mut cursor), Err(Error::EOF));
    assert_eq!(cursor.remaining(), 0);
}
