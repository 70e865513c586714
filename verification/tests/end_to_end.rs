use clparse::changelog::{Change, Changelog};
use clparse::{ChangelogParser, ParseError, ParsedBuffer};

fn read(markdown: &str) -> Changelog {
    let parser = ChangelogParser::new("-".to_string(), Some(80));
    match parser.parse_buffer(markdown.to_string()) {
        Ok(ParsedBuffer::Changelog(changelog)) => changelog,
        other => panic!("no changelog: {:?}", other),
    }
}

#[test]
fn reads_the_small_example() {
    let changelog = read("# T\n\ndesc\n\n## [1.0.0] - 2020-01-01\n### Added\n- x\n");
    assert_eq!(changelog.title(), "T");
    assert_eq!(changelog.description(), "desc\n\n");
    assert_eq!(changelog.releases().len(), 1);
    let release = &changelog.releases()[0];
    assert_eq!(release.version().as_ref().unwrap().text(), "1.0.0");
    let date = release.date().unwrap();
    assert_eq!((date.year(), date.month(), date.day()), (2020, 1, 1));
    assert_eq!(release.changes(), &vec![Change::Added("x".to_string())]);
    assert!(!*release.yanked());
    assert!(release.link().is_none());
}

#[test]
fn renders_the_small_example() {
    let changelog = read("# T\n\ndesc\n\n## [1.0.0] - 2020-01-01\n### Added\n- x\n");
    assert_eq!(
        changelog.render(),
        "# T\ndesc\n\n## [1.0.0] - 2020-01-01\n### Added\n- x\n\n"
    );
}

#[test]
fn rendering_is_stable_under_reading_back() {
    let first = read("# T\n\ndesc\n\n## [1.0.0] - 2020-01-01\n### Added\n- x\n").render();
    let second = read(&first).render();
    assert_eq!(first, second);
}

#[test]
fn an_unknown_label_fails_with_the_label() {
    let parser = ChangelogParser::new("-".to_string(), Some(80));
    let result = parser.parse_buffer("# T\n## [1.0.0] - 2020-01-01\n### Broken\n- x\n".to_string());
    match result {
        Err(ParseError::Change(e)) => {
            assert_eq!(e.message(), "invalid change type specified: Broken")
        }
        other => panic!("expected an error, got {:?}", other),
    }
}
