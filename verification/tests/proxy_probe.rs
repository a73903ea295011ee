use ai_gateway::proxy_probe::{
    cooldown_seconds, parse_response, resolve_credential, same_proxy_endpoint, test_credentials, ProxyTestError,
    StoredProxy,
};

#[test]
fn parses_ip_api_success_response() {
    let response = parse_response(
        br#"{
            "status":"success",
            "continent":"North America",
            "continentCode":"NA",
            "country":"United States",
            "countryCode":"US",
            "region":"CA",
            "regionName":"California",
            "city":"Los Angeles",
            "district":"",
            "zip":"90001",
            "lat":34.05,
            "lon":-118.24,
            "timezone":"America/Los_Angeles",
            "offset":-25200,
            "currency":"USD",
            "isp":"Example ISP",
            "org":"Example Org",
            "as":"AS64500 Example",
            "asname":"EXAMPLE",
            "mobile":false,
            "proxy":true,
            "hosting":false,
            "query":"203.0.113.10"
        }"#,
        42,
        Some(44),
        Some(60),
    )
    .unwrap();

    assert_eq!(response.ip, "203.0.113.10");
    assert_eq!(response.country_code.as_deref(), Some("US"));
    assert_eq!(response.district, None);
    assert_eq!(response.latency_ms, 42);
    assert_eq!(response.rate_limit_remaining, Some(44));
    assert_eq!(response.proxy, Some(true));
}

#[test]
fn rejects_failed_or_missing_ip_responses() {
    assert!(matches!(
        parse_response(br#"{"status":"fail","message":"reserved range"}"#, 1, None, None),
        Err(ProxyTestError::ProviderUnavailable)
    ));
    assert!(matches!(
        parse_response(br#"{"status":"success","query":"not-an-ip"}"#, 1, None, None),
        Err(ProxyTestError::InvalidResponse)
    ));
}

#[test]
fn credentials_only_fall_back_when_the_endpoint_is_equivalent() {
    assert!(same_proxy_endpoint("http://proxy.example:80", "http://PROXY.example/"));
    assert!(!same_proxy_endpoint("http://proxy.example:8080", "http://proxy.example:8081"));
    assert_eq!(resolve_credential(None, Some(Some("saved".into()))), Some("saved".into()));
    assert_eq!(resolve_credential(Some(None), Some(Some("saved".into()))), None);
}

#[test]
fn ip_answers_keep_numbers_as_text_and_refuse_wrong_types() {
    let response = parse_response(
        br#"{"status":"success","query":" ::FFFF:1.2.3.4 ","lat":34.05,"lon":-118,"city":"  Paris ","offset":3600}"#,
        7,
        None,
        None,
    )
    .unwrap();
    assert_eq!(response.ip, "::ffff:1.2.3.4");
    assert_eq!(response.latitude.as_deref(), Some("34.05"));
    assert_eq!(response.longitude.as_deref(), Some("-118"));
    assert_eq!(response.city.as_deref(), Some("Paris"));
    assert_eq!(response.utc_offset_seconds, Some(3600));
    assert_eq!(response.mobile, None);
    assert!(matches!(
        parse_response(br#"{"status":"success","query":"1.2.3.4","city":5}"#, 1, None, None),
        Err(ProxyTestError::InvalidResponse)
    ));
    assert!(matches!(
        parse_response(br#"{"status":"fail","offset":1.5}"#, 1, None, None),
        Err(ProxyTestError::InvalidResponse)
    ));
    assert!(matches!(parse_response(br#"{"query":"1.2.3.4"}"#, 1, None, None), Err(ProxyTestError::InvalidResponse)));
    assert!(matches!(parse_response(b"[]", 1, None, None), Err(ProxyTestError::InvalidResponse)));
    assert!(matches!(parse_response(br#"{"status":"success"}"#, 1, None, None), Err(ProxyTestError::InvalidResponse)));
}

#[test]
fn changed_endpoints_need_their_saved_credentials_again() {
    let stored = || StoredProxy {
        proxy_url: "http://proxy.example:8080".to_owned(),
        username: Some("saved-user".to_owned()),
        password: Some("saved-pass".to_owned()),
    };
    assert_eq!(
        test_credentials(Some(stored()), "http://PROXY.example:8080/", None, None).unwrap(),
        (Some("saved-user".to_owned()), Some("saved-pass".to_owned()))
    );
    assert_eq!(
        test_credentials(Some(stored()), "http://other.example:8080", None, Some(Some("new".to_owned()))),
        Err(ProxyTestError::CredentialsRequired)
    );
    assert_eq!(
        test_credentials(
            Some(stored()),
            "http://other.example:8080",
            Some(Some("u".to_owned())),
            Some(None)
        )
        .unwrap(),
        (Some("u".to_owned()), None)
    );
    assert_eq!(
        test_credentials(None, "http://other.example:8080", None, Some(Some("p".to_owned()))).unwrap(),
        (None, Some("p".to_owned()))
    );
}

#[test]
fn rate_limit_cooldowns_are_clamped() {
    assert_eq!(cooldown_seconds(None), 60);
    assert_eq!(cooldown_seconds(Some(0)), 1);
    assert_eq!(cooldown_seconds(Some(30)), 30);
    assert_eq!(cooldown_seconds(Some(1_000_000)), 86_400);
}

#[test]
fn rate_limited_endpoints_rest_until_their_deadline() {
    let mut cooldowns = ai_gateway::proxy_probe::ProxyTestCooldowns::new();
    let second: u128 = 1_000_000_000;
    cooldowns.record_cooldown("http://proxy-a".to_owned(), Some(5), 10 * second);
    cooldowns.record_cooldown("http://proxy-b".to_owned(), None, 10 * second);
    assert!(cooldowns.ensure_not_rate_limited("http://proxy-a", 14 * second).is_err());
    assert!(cooldowns.ensure_not_rate_limited("http://proxy-c", 14 * second).is_ok());
    assert!(cooldowns.ensure_not_rate_limited("http://proxy-a", 15 * second).is_ok());
    assert!(cooldowns.ensure_not_rate_limited("http://proxy-b", 69 * second).is_err());
    cooldowns.record_cooldown("http://proxy-b".to_owned(), Some(0), 69 * second);
    assert!(cooldowns.ensure_not_rate_limited("http://proxy-b", 70 * second).is_ok());
    cooldowns.record_cooldown("http://proxy-a".to_owned(), Some(1), u128::MAX - 10);
    assert!(cooldowns.ensure_not_rate_limited("http://proxy-a", 0).is_ok());
}
