//! Priorities: wire names, classification and reading.

use ecapplog::Priority;

#[test]
fn wire_names_match_the_server_constants() {
    let expected = [
        "TRACE",
        "DEBUG",
        "INFORMATION",
        "NOTICE",
        "WARNING",
        "FATAL",
        "CRITICAL",
        "ERROR",
    ];
    let actual: Vec<&str> = Priority::ALL.iter().map(Priority::as_str).collect();
    assert_eq!(actual, expected);
}

#[test]
fn error_classification_matches_the_server() {
    for p in Priority::ALL {
        let expect_error = matches!(p, Priority::Fatal | Priority::Critical | Priority::Error);
        assert_eq!(p.is_error(), expect_error, "{}", p.as_str());
        assert_eq!(
            p.is_error_or_warning(),
            expect_error || p == Priority::Warning,
            "{}",
            p.as_str()
        );
    }
}

#[test]
fn a_custom_priority_is_never_error_classified() {
    // The server compares literally, so a lowercase "error" reaches no ERROR tab.
    let p: Priority = "error".parse().unwrap();
    assert_eq!(p, Priority::Error, "parsing is case-insensitive");

    let p = Priority::Custom("SEVERE".into());
    assert!(!p.is_error());
    assert!(!p.is_error_or_warning());
    assert_eq!(p.as_str(), "SEVERE");
}

#[test]
fn round_trips_through_display_and_from_str() {
    for p in Priority::ALL {
        assert_eq!(p.to_string().parse::<Priority>().unwrap(), p);
    }
}

#[test]
fn a_custom_error_spelling_is_not_an_error() {
    let p = Priority::Custom("ERROR".into());
    assert!(!p.is_error());
    assert!(!p.is_error_or_warning());
}

#[test]
fn reading_ignores_ascii_case_only() {
    assert_eq!(Priority::from_name("wArNiNg"), Priority::Warning);
    assert_eq!(Priority::from_name("Notice"), Priority::Notice);
    assert_eq!(Priority::from_name("warn"), Priority::Custom("warn".into()));
    assert_eq!(Priority::from_name(""), Priority::Custom("".into()));
    // U+017F is a letter whose full Unicode upper case is `S`, and which is not ASCII.
    assert_eq!(
        Priority::from_name("\u{17f}"),
        Priority::Custom("\u{17f}".into())
    );
}

#[test]
fn clones_equal_their_originals() {
    for p in Priority::ALL {
        assert_eq!(p.clone(), p);
    }
    let borrowed = Priority::Custom("a".into());
    assert_eq!(borrowed.clone(), borrowed);
    let owned = Priority::Custom(String::from("b").into());
    assert_eq!(owned.clone(), owned);
}
