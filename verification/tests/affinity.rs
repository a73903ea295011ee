use ai_gateway::http_rules::Header;
use ai_gateway::session_affinity::{session_affinity_hash, session_affinity_value, AffinityKeySource};

fn header(name: &str, value: &str) -> Header {
    Header { name: name.to_owned(), value: value.as_bytes().to_vec() }
}

#[test]
fn extracts_session_affinity_from_ordered_header_and_json_sources() {
    let sources = [
        AffinityKeySource::RequestHeader("x-session-id".to_owned()),
        AffinityKeySource::JsonPointer("/id".to_owned()),
    ];
    let headers = Vec::new();
    let matched = session_affinity_hash(&sources, &headers, br#"{"id":"session-body","model":"gpt-5"}"#);
    assert!(matched.is_some());
    assert_eq!(
        session_affinity_value(&sources, &headers, br#"{"id":"session-body","model":"gpt-5"}"#).as_deref(),
        Some("session-body")
    );
}

#[test]
fn ignores_non_scalar_or_overlong_session_affinity_values() {
    let sources = [AffinityKeySource::JsonPointer("/metadata".to_owned())];
    let headers = Vec::new();
    assert!(session_affinity_hash(
        &sources,
        &headers,
        br#"{"model":"gpt-5","metadata":{"session":"session-object"}}"#,
    )
    .is_none());

    let headers = vec![header("x-session-id", &format!("session-{}", "x".repeat(600)))];
    let header_sources = [AffinityKeySource::RequestHeader("x-session-id".to_owned())];
    assert!(session_affinity_hash(&header_sources, &headers, br#"{"model":"gpt-5"}"#).is_none());
}

#[test]
fn the_first_source_with_a_usable_value_keys_the_session() {
    let sources = [
        AffinityKeySource::RequestHeader("x-session-id".to_owned()),
        AffinityKeySource::JsonPointer("/metadata/user~1id".to_owned()),
        AffinityKeySource::JsonPointer("/id".to_owned()),
    ];
    let body = br#"{"id":"body-id","metadata":{"user/id":42}}"#;
    let blank = vec![header("x-session-id", "   ")];
    assert_eq!(session_affinity_value(&sources, &blank, body).as_deref(), Some("42"));
    let named = vec![header("x-session-id", "  header-id ")];
    assert_eq!(session_affinity_value(&sources, &named, body).as_deref(), Some("header-id"));
    let same = session_affinity_hash(&sources, &named, b"not json").unwrap();
    assert_eq!(session_affinity_hash(&sources, &named, body).unwrap(), same);
    assert_eq!(session_affinity_value(&sources[1..], &blank, b"not json"), None);
}
