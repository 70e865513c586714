use clparse::date::Date;
use clparse::version::Version;

#[test]
fn a_version_shows_as_it_was_written() {
    assert_eq!(Version::new("1.0.0").unwrap().text(), "1.0.0");
    assert_eq!(Version::new("1.2.3-rc1").unwrap().text(), "1.2.3-rc1");
    assert_eq!(Version::new("1:2.3.4").unwrap().text(), "1:2.3.4");
}

#[test]
fn a_version_keeps_its_source() {
    assert_eq!(Version::new("0.25-2").unwrap().as_str(), "0.25-2");
}

#[test]
fn what_is_no_version_is_refused() {
    assert!(Version::new("").is_none());
    assert!(Version::new("[1.0.0]").is_none());
    assert!(Version::new("1.0.0 - 2020-01-01").is_none());
    assert!(Version::new("- 2020-01-01").is_none());
}

#[test]
fn versions_are_ordered_by_their_numbers() {
    let one = Version::new("1.0.0").unwrap();
    let two = Version::new("2.0.0").unwrap();
    let ten = Version::new("10.0.0").unwrap();
    assert!(one.below(&two));
    assert!(!two.below(&one));
    assert!(!one.below(&one));
    assert!(two.below(&ten));
    assert!(!ten.below(&two));
}

#[test]
fn versions_are_the_same_or_not() {
    let a = Version::new("1.0.0").unwrap();
    let b = Version::new("1.0.0").unwrap();
    let c = Version::new("1.0.1").unwrap();
    assert!(a.same(&b));
    assert!(!a.same(&c));
    assert!(a.clone().same(&a));
}

#[test]
fn a_date_is_read_from_its_text() {
    let date = Date::parse("2020-01-31").unwrap();
    assert_eq!((date.year(), date.month(), date.day()), (2020, 1, 31));
}

#[test]
fn what_is_no_date_is_refused() {
    assert!(Date::parse("").is_none());
    assert!(Date::parse("2020-02-30").is_none());
    assert!(Date::parse("2020-13-01").is_none());
    assert!(Date::parse("yesterday").is_none());
    assert!(Date::parse("2020-01-01 [YANKED]").is_none());
}

#[test]
fn a_date_is_made_of_its_numbers() {
    let date = Date::new(2019, 12, 5).unwrap();
    assert_eq!(date.text(), "2019-12-05");
    assert!(Date::new(2019, 2, 29).is_none());
    assert!(Date::new(2020, 2, 29).is_some());
    assert!(Date::new(2020, 0, 1).is_none());
}

#[test]
fn a_date_shows_with_four_and_two_digits() {
    assert_eq!(Date::parse("2020-1-2").map(|d| d.text()), Some("2020-01-02".to_string()));
    assert_eq!(Date::new(987, 6, 5).unwrap().text(), "0987-06-05");
}
