use clparse::changelog::{Change, Release, ReleaseBuilder};
use clparse::date::Date;
use clparse::version::Version;

fn version(text: &str) -> Version {
    Version::new(text).unwrap()
}

fn release(v: &str, date: (i32, u32, u32)) -> Release {
    ReleaseBuilder::default()
        .version(version(v))
        .date(Date::new(date.0, date.1, date.2).unwrap())
        .build()
        .unwrap()
}

#[test]
fn a_release_built_from_nothing() {
    let release = ReleaseBuilder::default().build().unwrap();
    assert!(release.version().is_none());
    assert!(release.link().is_none());
    assert!(release.date().is_none());
    assert!(release.changes().is_empty());
    assert!(!*release.yanked());
    assert_eq!(release.separator(), "-");
    assert_eq!(*release.wrap(), Some(77));
}

#[test]
fn the_default_separator_is_a_hyphen() {
    assert_eq!(ReleaseBuilder::default().default_separator(), "-");
}

#[test]
fn a_release_built_field_by_field() {
    let mut builder = ReleaseBuilder::default();
    builder
        .version(version("1.2.3"))
        .link("https://example.com/1.2.3".to_string())
        .date(Date::new(2021, 3, 4).unwrap())
        .changes(vec![Change::Added("a".to_string())])
        .yanked(true)
        .separator("/".to_string())
        .wrap(None);
    let release = builder.build().unwrap();
    assert_eq!(release.version().as_ref().unwrap().as_str(), "1.2.3");
    assert_eq!(release.link().as_deref(), Some("https://example.com/1.2.3"));
    assert_eq!(release.date().unwrap().text(), "2021-03-04");
    assert_eq!(release.changes(), &vec![Change::Added("a".to_string())]);
    assert!(*release.yanked());
    assert_eq!(release.separator(), "/");
    assert_eq!(*release.wrap(), None);
    // the builder can be used again
    let again = builder.build().unwrap();
    assert_eq!(again.render(), release.render());
}

#[test]
fn yanking_clears_the_link() {
    let mut release = release("1.0.0", (2020, 1, 1));
    release.set_link("https://example.com".to_string());
    assert!(release.link().is_some());
    release.yank(true);
    assert!(*release.yanked());
    assert!(release.link().is_none());
}

#[test]
fn yanking_again_leaves_the_link() {
    let mut release = release("1.0.0", (2020, 1, 1));
    release.yank(true);
    release.set_link("https://example.com".to_string());
    release.yank(true);
    assert!(*release.yanked());
    assert_eq!(release.link().as_deref(), Some("https://example.com"));
}

#[test]
fn taking_the_yank_back_leaves_the_link() {
    let mut release = release("1.0.0", (2020, 1, 1));
    release.yank(true);
    release.set_link("https://example.com".to_string());
    release.yank(false);
    assert!(!*release.yanked());
    assert_eq!(release.link().as_deref(), Some("https://example.com"));
    release.yank(false);
    assert_eq!(release.link().as_deref(), Some("https://example.com"));
}

#[test]
fn yanking_changes_nothing_else() {
    let mut release = release("1.0.0", (2020, 1, 1));
    release.set_changes(vec![Change::Fixed("f".to_string())]);
    release.yank(true);
    assert_eq!(release.version().as_ref().unwrap().as_str(), "1.0.0");
    assert_eq!(release.date().unwrap().text(), "2020-01-01");
    assert_eq!(release.changes(), &vec![Change::Fixed("f".to_string())]);
    assert_eq!(release.separator(), "-");
}

#[test]
fn fields_are_set() {
    let mut release = ReleaseBuilder::default().build().unwrap();
    release
        .set_version(version("3.0.0"))
        .set_link("l".to_string())
        .set_date(Date::new(2022, 2, 2).unwrap())
        .set_changes(vec![Change::Removed("r".to_string())]);
    assert_eq!(release.version().as_ref().unwrap().as_str(), "3.0.0");
    assert_eq!(release.link().as_deref(), Some("l"));
    assert_eq!(release.date().unwrap().text(), "2022-02-02");
    assert_eq!(release.changes(), &vec![Change::Removed("r".to_string())]);
}

#[test]
fn fields_are_changed_in_place() {
    let mut release = release("1.0.0", (2020, 1, 1));
    *release.version_mut() = None;
    *release.link_mut() = Some("m".to_string());
    *release.date_mut() = None;
    release.changes_mut().push(Change::Security("s".to_string()));
    assert!(release.version().is_none());
    assert_eq!(release.link().as_deref(), Some("m"));
    assert!(release.date().is_none());
    assert_eq!(release.changes(), &vec![Change::Security("s".to_string())]);
}

#[test]
fn an_unreleased_release_without_changes() {
    let release = ReleaseBuilder::default().build().unwrap();
    assert_eq!(release.render(), "## [Unreleased]\n\n");
}

#[test]
fn an_unreleased_release_with_changes() {
    let release = ReleaseBuilder::default()
        .changes(vec![Change::Added("a".to_string())])
        .build()
        .unwrap();
    assert_eq!(release.render(), "## [Unreleased]\n### Added\n- a\n\n");
}

#[test]
fn a_released_release() {
    assert_eq!(release("1.0.0", (2020, 1, 1)).render(), "## [1.0.0] - 2020-01-01\n");
}

#[test]
fn a_yanked_release_shows_no_brackets() {
    let mut release = release("1.0.0", (2020, 1, 1));
    release.yank(true);
    assert_eq!(release.render(), "## 1.0.0 - 2020-01-01 [YANKED]\n");
}

#[test]
fn the_separator_stands_between_version_and_date() {
    let release = ReleaseBuilder::default()
        .version(version("1.0.0"))
        .date(Date::new(2020, 1, 1).unwrap())
        .separator("/".to_string())
        .build()
        .unwrap();
    assert_eq!(release.render(), "## [1.0.0] / 2020-01-01\n");
}

#[test]
fn a_version_without_a_date_shows_as_unreleased() {
    let release = ReleaseBuilder::default().version(version("1.0.0")).build().unwrap();
    assert_eq!(release.render(), "## [Unreleased]\n\n");
    let release = ReleaseBuilder::default()
        .date(Date::new(2020, 1, 1).unwrap())
        .changes(vec![Change::Fixed("f".to_string())])
        .build()
        .unwrap();
    assert_eq!(release.render(), "## [Unreleased]\n### Fixed\n- f\n\n");
}

#[test]
fn changes_are_grouped_in_the_fixed_order() {
    let release = ReleaseBuilder::default()
        .version(version("1.0.0"))
        .date(Date::new(2020, 1, 1).unwrap())
        .changes(vec![
            Change::Security("s".to_string()),
            Change::Fixed("f".to_string()),
            Change::Removed("r".to_string()),
            Change::Deprecated("d".to_string()),
            Change::Changed("c".to_string()),
            Change::Added("a".to_string()),
        ])
        .build()
        .unwrap();
    assert_eq!(
        release.render(),
        "## [1.0.0] - 2020-01-01\n### Added\n- a\n\n### Changed\n- c\n\n### Deprecated\n- d\n\n\
         ### Removed\n- r\n\n### Fixed\n- f\n\n### Security\n- s\n\n"
    );
}

#[test]
fn grouping_keeps_the_order_within_a_category() {
    let release = ReleaseBuilder::default()
        .changes(vec![
            Change::Fixed("one".to_string()),
            Change::Added("two".to_string()),
            Change::Fixed("three".to_string()),
            Change::Added("four".to_string()),
            Change::Fixed("five".to_string()),
        ])
        .build()
        .unwrap();
    assert_eq!(
        release.render(),
        "## [Unreleased]\n### Added\n- two\n- four\n\n### Fixed\n- one\n- three\n- five\n\n"
    );
}

#[test]
fn empty_categories_are_left_out() {
    let release = ReleaseBuilder::default()
        .changes(vec![Change::Removed("r".to_string())])
        .build()
        .unwrap();
    let text = release.render();
    assert_eq!(text, "## [Unreleased]\n### Removed\n- r\n\n");
    for name in ["Added", "Changed", "Deprecated", "Fixed", "Security"] {
        assert!(!text.contains(name));
    }
}

#[test]
fn the_changes_break_at_the_release_column() {
    let change = Change::Changed("To be, or not to be: that is the question".to_string());
    let release = ReleaseBuilder::default().changes(vec![change.clone()]).wrap(Some(10)).build().unwrap();
    assert_eq!(
        release.render(),
        "## [Unreleased]\n### Changed\n- To be,\n  or not to\n  be: that\n  is the\n  question\n\n"
    );
    let release = ReleaseBuilder::default().changes(vec![change]).wrap(None).build().unwrap();
    assert_eq!(
        release.render(),
        "## [Unreleased]\n### Changed\n- To be, or not to be: that is the question\n\n"
    );
}

#[test]
fn a_copy_of_a_release_renders_alike() {
    let mut release = release("1.0.0", (2020, 1, 1));
    release.set_changes(vec![Change::Added("a".to_string())]);
    assert_eq!(release.clone().render(), release.render());
}
