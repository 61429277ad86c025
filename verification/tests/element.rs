use rahmen::config::{CaseConversion, Element, Replacement};
use rahmen::element::{any_refused, has_fault, push_replacements, StatusLineElement};
use rahmen::errors::RahmenError;
use rahmen::metadata::MetadataRecord;
use rahmen::transformation::{transform_all, StatusLineTransformation};

fn tags(names: &[&str]) -> Vec<String> {
    names.iter().map(|s| s.to_string()).collect()
}

fn plain(names: &[&str]) -> Element {
    Element {
        exif_tags: tags(names),
        case_conversion: None,
        capitalize: None,
        replace: None,
    }
}

fn record(entries: &[(&str, &str)]) -> MetadataRecord {
    let mut r = MetadataRecord::new();
    for (tag, value) in entries {
        r.insert(tag.to_string(), value.to_string());
    }
    r
}

#[test]
fn first_present_tag_wins() {
    let e = StatusLineElement::try_from(plain(&["City", "ProvinceState"])).unwrap();
    let r = record(&[("ProvinceState", "Brandenburg"), ("City", "Berlin")]);
    assert_eq!(e.process(&r), Some("Berlin".to_string()));
}

#[test]
fn absent_tag_falls_through_to_the_next() {
    let e = StatusLineElement::try_from(plain(&["City", "ProvinceState", "Country"])).unwrap();
    let r = record(&[("Country", "Germany"), ("ProvinceState", "Brandenburg")]);
    assert_eq!(e.process(&r), Some("Brandenburg".to_string()));
}

#[test]
fn no_present_tag_resolves_to_none() {
    let e = StatusLineElement::try_from(plain(&["City", "ProvinceState"])).unwrap();
    assert_eq!(e.process(&record(&[("Country", "Germany")])), None);
    assert_eq!(e.process(&MetadataRecord::new()), None);
}

#[test]
fn present_but_empty_value_is_a_value() {
    let e = StatusLineElement::try_from(plain(&["City", "ProvinceState"])).unwrap();
    let r = record(&[("City", ""), ("ProvinceState", "Brandenburg")]);
    assert_eq!(e.process(&r), Some("".to_string()));
}

#[test]
fn element_applies_its_chain_in_order() {
    let e = StatusLineElement::try_from(Element {
        exif_tags: tags(&["City"]),
        case_conversion: Some(CaseConversion {
            from: "upper".to_string(),
            to: "lower".to_string(),
        }),
        capitalize: Some(true),
        replace: Some(vec![
            Replacement { regex: "York".to_string(), replace: "Amsterdam".to_string() },
            Replacement { regex: "^New ".to_string(), replace: "Nieuw ".to_string() },
        ]),
    })
    .unwrap();
    assert_eq!(
        e.process(&record(&[("City", "NEW YORK")])),
        Some("Nieuw Amsterdam".to_string())
    );
}

#[test]
fn capitalize_switched_off_does_nothing() {
    let e = StatusLineElement::try_from(Element {
        exif_tags: tags(&["City"]),
        case_conversion: None,
        capitalize: Some(false),
        replace: None,
    })
    .unwrap();
    assert_eq!(e.process(&record(&[("City", "NEW YORK")])), Some("NEW YORK".to_string()));
}

#[test]
fn element_capitalizes() {
    let e = StatusLineElement::try_from(Element {
        exif_tags: tags(&["City"]),
        case_conversion: None,
        capitalize: Some(true),
        replace: None,
    })
    .unwrap();
    assert_eq!(
        e.process(&record(&[("City", "NEW YORK CITY")])),
        Some("New York City".to_string())
    );
}

#[test]
fn element_keeps_its_tags() {
    let e = StatusLineElement::try_from(plain(&["City", "ProvinceState"])).unwrap();
    assert_eq!(e.tags(), &tags(&["City", "ProvinceState"]));
}

#[test]
fn element_without_tags_is_rejected() {
    match StatusLineElement::try_from(plain(&[])) {
        Err(RahmenError::NoTags) => {}
        other => panic!("unexpected: {:?}", other),
    }
}

#[test]
fn element_with_unknown_case_is_rejected() {
    let r = StatusLineElement::try_from(Element {
        exif_tags: tags(&["City"]),
        case_conversion: Some(CaseConversion {
            from: "upper".to_string(),
            to: "shouting".to_string(),
        }),
        capitalize: None,
        replace: None,
    });
    match r {
        Err(RahmenError::CaseUnknown(name)) => assert_eq!(name, "shouting"),
        other => panic!("unexpected: {:?}", other),
    }
}

#[test]
fn element_reports_the_source_case_before_the_target_case() {
    let r = StatusLineElement::try_from(Element {
        exif_tags: tags(&["City"]),
        case_conversion: Some(CaseConversion {
            from: "whisper".to_string(),
            to: "shouting".to_string(),
        }),
        capitalize: None,
        replace: Some(vec![Replacement { regex: "(".to_string(), replace: "".to_string() }]),
    });
    match r {
        Err(RahmenError::CaseUnknown(name)) => assert_eq!(name, "whisper"),
        other => panic!("unexpected: {:?}", other),
    }
}

#[test]
fn element_with_invalid_pattern_is_rejected() {
    let r = StatusLineElement::try_from(Element {
        exif_tags: tags(&["City"]),
        case_conversion: None,
        capitalize: None,
        replace: Some(vec![
            Replacement { regex: "ok".to_string(), replace: "".to_string() },
            Replacement { regex: "[a-".to_string(), replace: "".to_string() },
            Replacement { regex: "(".to_string(), replace: "".to_string() },
        ]),
    });
    match r {
        Err(RahmenError::Regex { pattern, .. }) => assert_eq!(pattern, "[a-"),
        other => panic!("unexpected: {:?}", other),
    }
}

#[test]
fn element_without_tags_is_reported_before_other_faults() {
    let r = StatusLineElement::try_from(Element {
        exif_tags: tags(&[]),
        case_conversion: Some(CaseConversion {
            from: "whisper".to_string(),
            to: "upper".to_string(),
        }),
        capitalize: None,
        replace: None,
    });
    match r {
        Err(RahmenError::NoTags) => {}
        other => panic!("unexpected: {:?}", other),
    }
}

#[test]
fn push_replacements_appends_in_order() {
    let mut chain = vec![StatusLineTransformation::Capitalize];
    let r = push_replacements(
        &mut chain,
        vec![
            Replacement { regex: "New".to_string(), replace: "Old".to_string() },
            Replacement { regex: "Old".to_string(), replace: "Ancient".to_string() },
        ],
    );
    assert!(r.is_ok());
    assert_eq!(chain.len(), 3);
    assert_eq!(transform_all(&chain, "NEW YORK".to_string()), "Ancient York");
}

#[test]
fn push_replacements_stops_at_the_first_bad_pattern() {
    let mut chain = Vec::new();
    let r = push_replacements(
        &mut chain,
        vec![
            Replacement { regex: "a".to_string(), replace: "b".to_string() },
            Replacement { regex: "(".to_string(), replace: "".to_string() },
            Replacement { regex: "c".to_string(), replace: "d".to_string() },
        ],
    );
    match r {
        Err(RahmenError::Regex { pattern, .. }) => assert_eq!(pattern, "("),
        other => panic!("unexpected: {:?}", other),
    }
    assert_eq!(chain.len(), 1);
}

#[test]
fn has_fault_tells_what_try_from_will_refuse() {
    assert!(!has_fault(&plain(&["City"])));
    assert!(has_fault(&plain(&[])));
    let with_case = |from: &str, to: &str| Element {
        exif_tags: tags(&["City"]),
        case_conversion: Some(CaseConversion { from: from.to_string(), to: to.to_string() }),
        capitalize: Some(true),
        replace: None,
    };
    assert!(!has_fault(&with_case("upper", "Title")));
    assert!(has_fault(&with_case("whisper", "title")));
    assert!(has_fault(&with_case("upper", "shout")));
    let with_patterns = |patterns: &[&str]| Element {
        exif_tags: tags(&["City"]),
        case_conversion: None,
        capitalize: None,
        replace: Some(
            patterns
                .iter()
                .map(|p| Replacement { regex: p.to_string(), replace: "".to_string() })
                .collect(),
        ),
    };
    assert!(!has_fault(&with_patterns(&[])));
    assert!(!has_fault(&with_patterns(&["a", "b+"])));
    assert!(has_fault(&with_patterns(&["a", "b(", "c"])));
    for config in [
        plain(&[]),
        plain(&["City"]),
        with_case("upper", "shout"),
        with_case("snake", "kebab"),
        with_patterns(&["["]),
        with_patterns(&["x"]),
    ] {
        assert_eq!(has_fault(&config), StatusLineElement::try_from(config).is_err());
    }
}

#[test]
fn any_refused_finds_a_bad_pattern_anywhere() {
    let list = |patterns: &[&str]| -> Vec<Replacement> {
        patterns
            .iter()
            .map(|p| Replacement { regex: p.to_string(), replace: "".to_string() })
            .collect()
    };
    assert!(!any_refused(&list(&[])));
    assert!(!any_refused(&list(&["a", "(b)", r"\d+"])));
    assert!(any_refused(&list(&["(", "a"])));
    assert!(any_refused(&list(&["a", "b", "[c"])));
}
