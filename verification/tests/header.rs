use clparse::changelog::ReleaseBuilder;
use clparse::date::Date;
use clparse::header::{apply_header, read_header};
use clparse::text::followed_by;
use clparse::version::Version;
use clparse::ChangelogParser;

fn fields(separator: &str, text: &str) -> (Option<String>, Option<String>, bool) {
    let header = read_header(separator, text);
    (
        header.version.map(|v| v.as_str().to_string()),
        header.date.map(|d| d.text()),
        header.yanked,
    )
}

fn some(text: &str) -> Option<String> {
    Some(text.to_string())
}

#[test]
fn version_and_date() {
    assert_eq!(fields("-", "1.0.0 - 2020-01-01"), (some("1.0.0"), some("2020-01-01"), false));
}

#[test]
fn a_version_in_brackets() {
    assert_eq!(fields("-", "[1.0.0] - 2020-01-01"), (some("1.0.0"), some("2020-01-01"), false));
}

#[test]
fn the_text_is_trimmed() {
    assert_eq!(fields("-", "  1.0.0 - 2020-01-01 \n"), (some("1.0.0"), some("2020-01-01"), false));
}

#[test]
fn a_yanked_release() {
    assert_eq!(
        fields("-", "1.0.0 - 2020-01-01 [YANKED]"),
        (some("1.0.0"), some("2020-01-01"), true)
    );
}

#[test]
fn the_bare_word_says_yanked_too() {
    assert_eq!(fields("-", "1.0.0 - YANKED"), (some("1.0.0"), None, true));
    assert_eq!(fields("-", "1.0.0 - 2020-01-01 YANKED"), (some("1.0.0"), None, true));
}

#[test]
fn yanked_is_told_by_the_right_part_only() {
    assert_eq!(fields("-", "YANKED - 2020-01-01"), (some("YANKED"), some("2020-01-01"), false));
}

#[test]
fn another_separator() {
    assert_eq!(fields("/", "1.0.0 / 2020-01-01"), (some("1.0.0"), some("2020-01-01"), false));
    assert_eq!(fields("on", "1.0.0 on 2020-01-01"), (some("1.0.0"), some("2020-01-01"), false));
}

#[test]
fn the_separator_stands_between_spaces() {
    assert_eq!(fields("-", "1.0.0-2020-01-01"), (some("1.0.0-2020-01-01"), None, false));
    assert_eq!(fields("/", "1.0.0 - 2020-01-01"), (None, None, false));
}

#[test]
fn the_text_is_parted_at_the_first_separator() {
    assert_eq!(fields("-", "1.0.0 - 2020-01-01 - more"), (some("1.0.0"), None, false));
}

#[test]
fn the_unreleased_heading() {
    assert_eq!(fields("-", "[Unreleased]"), (None, None, false));
    assert_eq!(fields("-", "Unreleased"), (None, None, false));
    assert_eq!(fields("-", ""), (None, None, false));
}

#[test]
fn a_version_alone() {
    assert_eq!(fields("-", "1.0.0"), (some("1.0.0"), None, false));
    assert_eq!(fields("-", "[1.0.0]"), (some("1.0.0"), None, false));
}

#[test]
fn a_date_behind_the_separator_alone() {
    assert_eq!(fields("-", "- 2020-01-01"), (None, some("2020-01-01"), false));
    assert_eq!(fields("/", " / 2020-01-01"), (None, some("2020-01-01"), false));
}

#[test]
fn a_date_behind_a_doubled_separator() {
    assert_eq!(fields("-", "1.0.0 - - 2020-01-01"), (some("1.0.0"), some("2020-01-01"), false));
}

#[test]
fn a_version_that_does_not_read_is_left_out() {
    assert_eq!(fields("-", "not a version! - 2020-01-01"), (None, some("2020-01-01"), false));
}

#[test]
fn a_date_that_does_not_read_is_left_out() {
    assert_eq!(fields("-", "1.0.0 - someday"), (some("1.0.0"), None, false));
    assert_eq!(fields("-", "1.0.0 - 2020-02-30"), (some("1.0.0"), None, false));
}

#[test]
fn an_unreleased_heading_with_a_date_has_no_version() {
    assert_eq!(fields("-", "[Unreleased] - 2020-01-01"), (None, some("2020-01-01"), false));
}

#[test]
fn what_the_heading_says_is_set() {
    let mut release = ReleaseBuilder::default();
    apply_header(&mut release, "-", "[2.0.0] - 2021-02-03 [YANKED]");
    let built = release.build().unwrap();
    assert_eq!(built.version().as_ref().unwrap().as_str(), "2.0.0");
    assert_eq!(built.date().unwrap().text(), "2021-02-03");
    assert!(*built.yanked());
}

#[test]
fn what_the_heading_does_not_say_stays() {
    let mut release = ReleaseBuilder::default();
    release
        .version(Version::new("1.0.0").unwrap())
        .date(Date::new(2020, 1, 1).unwrap())
        .yanked(true)
        .link("l".to_string());
    apply_header(&mut release, "-", "");
    let built = release.build().unwrap();
    assert_eq!(built.version().as_ref().unwrap().as_str(), "1.0.0");
    assert_eq!(built.date().unwrap().text(), "2020-01-01");
    assert!(*built.yanked());
    assert_eq!(built.link().as_deref(), Some("l"));
    apply_header(&mut release, "-", "3.0.0");
    let built = release.build().unwrap();
    assert_eq!(built.version().as_ref().unwrap().as_str(), "3.0.0");
    assert_eq!(built.date().unwrap().text(), "2020-01-01");
}

#[test]
fn the_parser_reads_a_heading_with_its_separator() {
    let parser = ChangelogParser::new("/".to_string(), None);
    let mut release = ReleaseBuilder::default();
    let mut accumulator = "1.2.3 / 2022-03-04".to_string();
    parser.parse_release_header(&mut release, &mut accumulator);
    assert_eq!(accumulator, "");
    let built = release.build().unwrap();
    assert_eq!(built.version().as_ref().unwrap().as_str(), "1.2.3");
    assert_eq!(built.date().unwrap().text(), "2022-03-04");
    assert!(!*built.yanked());
}

#[test]
fn texts_are_joined() {
    let a: Vec<char> = "ab".chars().collect();
    let b: Vec<char> = "cd".chars().collect();
    assert_eq!(followed_by(&a, &b), vec!['a', 'b', 'c', 'd']);
    assert_eq!(followed_by(&a, &Vec::new()), a);
    assert_eq!(followed_by(&Vec::new(), &b), b);
}
