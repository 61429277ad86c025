use rahmen::case::str_to_case;
use rahmen::config::Replacement;
use rahmen::errors::RahmenError;
use rahmen::transformation::StatusLineTransformation;

#[test]
fn unknown_case_message_names_the_case() {
    let e = str_to_case("sponge".to_string()).unwrap_err();
    assert_eq!(e.message(), "unknown case: sponge");
}

#[test]
fn no_tags_message() {
    assert_eq!(RahmenError::NoTags.message(), "element without tags");
}

#[test]
fn regex_message_names_the_pattern_and_gives_the_reason_of_the_engine() {
    let e = StatusLineTransformation::try_from(Replacement {
        regex: "foo(bar".to_string(),
        replace: "".to_string(),
    })
    .unwrap_err();
    let expected = format!(
        "invalid pattern foo(bar: {}",
        regex::Regex::new("foo(bar").unwrap_err()
    );
    assert_eq!(e.message(), expected);
    assert!(e.message().contains("unclosed group"));
}

#[test]
fn too_large_pattern_is_named_in_the_message() {
    let e = StatusLineTransformation::try_from(Replacement {
        regex: r"\w{1000}".to_string(),
        replace: "".to_string(),
    })
    .unwrap_err();
    assert!(e.message().starts_with(r"invalid pattern \w{1000}: "));
}
