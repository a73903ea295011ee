use ai_gateway::keyword::{AutomaticDisableSettings, AutomaticDisableTrigger, ErrorKeywordMatcher};

#[test]
fn keyword_matching_spans_utf8_response_chunks() {
    let settings = AutomaticDisableSettings::new(true, vec![], vec!["余额不足".to_owned()]);
    let mut matcher = ErrorKeywordMatcher::new(&settings).unwrap();
    assert_eq!(matcher.observe("余额不".as_bytes()), None);
    assert_eq!(
        matcher.observe("足".as_bytes()),
        Some(AutomaticDisableTrigger::ErrorMessageKeyword("余额不足".to_owned()))
    );
}

#[test]
fn keyword_matching_is_case_insensitive_and_split_inside_a_character() {
    let settings = AutomaticDisableSettings::new(true, vec![429], vec!["Quota Exceeded".to_owned()]);
    let mut matcher = ErrorKeywordMatcher::new(&settings).unwrap();
    let body = "{\"error\":\"QUOTA exceeded é\"}".as_bytes();
    let split = body.len() - 4;
    assert_eq!(matcher.observe(&body[..8]), None);
    assert_eq!(
        matcher.observe(&body[8..split]),
        Some(AutomaticDisableTrigger::ErrorMessageKeyword("Quota Exceeded".to_owned()))
    );
}

#[test]
fn keyword_matching_needs_enabled_settings_with_keywords() {
    let disabled = AutomaticDisableSettings::new(false, vec![], vec!["x".to_owned()]);
    assert!(ErrorKeywordMatcher::new(&disabled).is_none());
    let empty = AutomaticDisableSettings::new(true, vec![500], vec![]);
    assert!(ErrorKeywordMatcher::new(&empty).is_none());
}

#[test]
fn invalid_bytes_are_skipped_and_the_scan_budget_is_bounded() {
    let settings = AutomaticDisableSettings::new(true, vec![], vec!["overloaded".to_owned()]);
    let mut matcher = ErrorKeywordMatcher::new(&settings).unwrap();
    assert_eq!(matcher.observe(&[0xff, b'o', b'v', b'e', b'r']), None);
    assert_eq!(
        matcher.observe(b"loaded"),
        Some(AutomaticDisableTrigger::ErrorMessageKeyword("overloaded".to_owned()))
    );
    let mut late = ErrorKeywordMatcher::new(&settings).unwrap();
    assert_eq!(late.observe(&vec![b'a'; 64 * 1024]), None);
    assert_eq!(late.observe(b"overloaded"), None);
}
