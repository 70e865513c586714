use clparse::{ChangelogFormat, ChangelogParser, ChangelogParserError, ParseError, ParsedBuffer};

fn format(buffer: &str) -> Option<ChangelogFormat> {
    match ChangelogParser::get_format_from_buffer(buffer.to_string()) {
        Ok(format) => Some(format),
        Err(ChangelogParserError::UnableToDetermineFormat) => None,
        Err(other) => panic!("{:?}", other),
    }
}

#[test]
fn a_brace_tells_the_object_form() {
    assert_eq!(format("{"), Some(ChangelogFormat::Json));
    assert_eq!(format("{\"title\": \"T\"}"), Some(ChangelogFormat::Json));
    assert_eq!(format("{ anything at all"), Some(ChangelogFormat::Json));
}

#[test]
fn a_hash_tells_markdown() {
    assert_eq!(format("#"), Some(ChangelogFormat::Markdown));
    assert_eq!(format("# Changelog\n"), Some(ChangelogFormat::Markdown));
    assert_eq!(format("## no title"), Some(ChangelogFormat::Markdown));
}

#[test]
fn a_rule_tells_the_key_value_form() {
    assert_eq!(format("---"), Some(ChangelogFormat::Yaml));
    assert_eq!(format("---\ntitle: T\n"), Some(ChangelogFormat::Yaml));
    assert_eq!(format("---\n"), Some(ChangelogFormat::Yaml));
}

#[test]
fn a_title_key_tells_the_key_value_form() {
    assert_eq!(format("title: T\n"), Some(ChangelogFormat::Yaml));
    assert_eq!(format("subtitle: T"), Some(ChangelogFormat::Yaml));
    // the key in quotes holds no `title:`
    assert_eq!(format("\"title\": T"), None);
}

#[test]
fn a_letter_without_a_title_key_tells_nothing() {
    assert_eq!(format("x"), None);
    assert_eq!(format("Changelog\n========="), None);
    assert_eq!(format("description: d\nreleases: []\n"), None);
}

#[test]
fn only_the_first_line_is_searched_for_the_title_key() {
    assert_eq!(format("description: d\ntitle: T\n"), None);
}

#[test]
fn a_longer_rule_tells_nothing() {
    assert_eq!(format("---abc"), None);
    assert_eq!(format("----"), None);
    assert_eq!(format("--- \n"), None);
}

#[test]
fn nothing_visible_tells_nothing() {
    assert_eq!(format(""), None);
    assert_eq!(format("   \n\t\n"), None);
}

#[test]
fn whitespace_before_the_first_character_is_passed_over() {
    assert_eq!(format("\n\n# T"), Some(ChangelogFormat::Markdown));
    assert_eq!(format("  {"), Some(ChangelogFormat::Json));
    assert_eq!(format("  title: T"), Some(ChangelogFormat::Yaml));
}

#[test]
fn other_forms_come_back_for_their_decoder() {
    let parser = ChangelogParser::new("-".to_string(), Some(80));
    match parser.parse_buffer("{\"title\": 1}".to_string()) {
        Ok(ParsedBuffer::Json(text)) => assert_eq!(text, "{\"title\": 1}"),
        other => panic!("{:?}", other),
    }
    match parser.parse_buffer("---\ntitle: T\n".to_string()) {
        Ok(ParsedBuffer::Yaml(text)) => assert_eq!(text, "---\ntitle: T\n"),
        other => panic!("{:?}", other),
    }
}

#[test]
fn an_unknown_form_is_an_error() {
    let parser = ChangelogParser::new("-".to_string(), Some(80));
    match parser.parse_buffer("plain words".to_string()) {
        Err(ParseError::Parser(ChangelogParserError::UnableToDetermineFormat)) => {}
        other => panic!("{:?}", other),
    }
}

#[test]
fn errors_in_words() {
    assert_eq!(
        ChangelogParserError::UnableToDetermineFormat.message(),
        "unable to determine file format from contents"
    );
    assert_eq!(
        ChangelogParserError::ErrorBuildingRelease("`title` must be initialized".to_string())
            .message(),
        "error building release"
    );
    assert_eq!(
        ParseError::Parser(ChangelogParserError::UnableToDetermineFormat).message(),
        "unable to determine file format from contents"
    );
}
