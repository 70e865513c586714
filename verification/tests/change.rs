use clparse::changelog::{Category, Change, ChangeError};

fn all_cases(label: &str) -> Vec<String> {
    let mut mixed = String::new();
    for (i, c) in label.chars().enumerate() {
        if i % 2 == 0 {
            mixed.push(c.to_ascii_uppercase());
        } else {
            mixed.push(c.to_ascii_lowercase());
        }
    }
    vec![label.to_lowercase(), label.to_uppercase(), label.to_string(), mixed]
}

#[test]
fn added_in_any_case() {
    for label in all_cases("Added") {
        assert_eq!(Change::new(&label, "d".to_string()).unwrap(), Change::Added("d".to_string()));
    }
}

#[test]
fn changed_in_any_case() {
    for label in all_cases("Changed") {
        assert_eq!(
            Change::new(&label, "d".to_string()).unwrap(),
            Change::Changed("d".to_string())
        );
    }
}

#[test]
fn deprecated_in_any_case() {
    for label in all_cases("Deprecated") {
        assert_eq!(
            Change::new(&label, "d".to_string()).unwrap(),
            Change::Deprecated("d".to_string())
        );
    }
}

#[test]
fn removed_in_any_case() {
    for label in all_cases("Removed") {
        assert_eq!(
            Change::new(&label, "d".to_string()).unwrap(),
            Change::Removed("d".to_string())
        );
    }
}

#[test]
fn fixed_in_any_case() {
    for label in all_cases("Fixed") {
        assert_eq!(Change::new(&label, "d".to_string()).unwrap(), Change::Fixed("d".to_string()));
    }
}

#[test]
fn security_in_any_case() {
    for label in all_cases("Security") {
        assert_eq!(
            Change::new(&label, "d".to_string()).unwrap(),
            Change::Security("d".to_string())
        );
    }
}

#[test]
fn the_description_is_kept_as_it_is() {
    let text = "  two\nlines with `code` and [a link](http://example.com)  ";
    let change = Change::new("fixed", text.to_string()).unwrap();
    assert_eq!(change.description(), text);
    assert_eq!(change.category(), Category::Fixed);
}

#[test]
fn other_labels_are_refused_with_the_label() {
    for label in ["", "add", "addedd", " added", "added ", "Fix", "feature", "Sécurity"] {
        match Change::new(label, "d".to_string()) {
            Err(ChangeError::InvalidChangeType(given)) => assert_eq!(given, label),
            Ok(change) => panic!("{:?} gave {:?}", label, change),
        }
    }
}

#[test]
fn the_error_names_the_label() {
    let error = Change::new("Broken", "d".to_string()).unwrap_err();
    assert_eq!(error.message(), "invalid change type specified: Broken");
}

#[test]
fn a_label_matches_by_ascii_case_only() {
    // U+212A, the Kelvin sign, is no letter of a category's name
    assert!(Change::new("\u{212A}", "d".to_string()).is_err());
    // U+0130 lowercases to an i with a dot above, not to a plain i
    assert!(Change::new("F\u{0130}XED", "d".to_string()).is_err());
}

#[test]
fn category_names() {
    assert_eq!(Category::Added.name(), "Added");
    assert_eq!(Category::Changed.name(), "Changed");
    assert_eq!(Category::Deprecated.name(), "Deprecated");
    assert_eq!(Category::Removed.name(), "Removed");
    assert_eq!(Category::Fixed.name(), "Fixed");
    assert_eq!(Category::Security.name(), "Security");
}

#[test]
fn category_from_label() {
    assert_eq!(Category::from_label("sEcUrItY"), Some(Category::Security));
    assert_eq!(Category::from_label("secure"), None);
}

#[test]
fn a_change_is_one_list_item() {
    assert_eq!(Change::Added("x".to_string()).render(None), "- x\n");
    assert_eq!(Change::Added("x".to_string()).render(Some(77)), "- x\n");
}

#[test]
fn line_feeds_become_spaces() {
    assert_eq!(Change::Fixed("a\nb\n\nc".to_string()).render(None), "- a b  c\n");
}

#[test]
fn long_descriptions_are_broken_and_indented() {
    let change = Change::Changed("To be, or not to be: that is the question".to_string());
    assert_eq!(
        change.render(Some(10)),
        "- To be,\n  or not to\n  be: that\n  is the\n  question\n"
    );
}

#[test]
fn without_a_column_nothing_is_broken() {
    let text = "word ".repeat(40);
    let change = Change::Changed(text.clone());
    assert_eq!(change.render(None), format!("- {}\n", text));
}

#[test]
fn a_copy_equals_the_change() {
    let change = Change::Security("s".to_string());
    assert_eq!(change.clone(), change);
}
