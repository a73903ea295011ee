use ai_gateway::codex::CodexCredentialUnavailable;
use ai_gateway::credentials::{CodexCredentialRecord, CodexCredentialRuntime};

const NOW: i64 = 1_700_000_000;

fn record(status: &str, expires_at: Option<i64>) -> CodexCredentialRecord {
    CodexCredentialRecord {
        channel_id: 1,
        projection_channel_ids: vec![1, 3],
        account_id: Some("account-123".into()),
        access_token: "access-token".into(),
        is_fedramp: false,
        access_token_expires_at: expires_at,
        refresh_generation: 7,
        runtime_status: status.into(),
    }
}

#[test]
fn draining_credentials_are_available_only_to_existing_affinity_sessions() {
    let mut runtime = CodexCredentialRuntime::new();
    runtime.replace(vec![record("draining", Some(NOW + 3_600))]);

    assert_eq!(runtime.credential(1, false, NOW).err(), Some(CodexCredentialUnavailable::Draining));
    let credential = runtime.credential(1, true, NOW).unwrap();
    assert_eq!(credential.account_id(), Some("account-123"));
    assert_eq!(credential.refresh_generation(), 7);
}

#[test]
fn expired_tokens_are_unavailable_even_when_the_status_is_active() {
    let mut runtime = CodexCredentialRuntime::new();
    runtime.replace(vec![record("active", Some(NOW - 1))]);

    assert_eq!(runtime.credential(1, true, NOW).err(), Some(CodexCredentialUnavailable::Expired));
}

#[test]
fn explicit_credential_state_takes_precedence_over_token_expiration() {
    let mut runtime = CodexCredentialRuntime::new();
    runtime.replace(vec![record("disabled", Some(NOW - 1))]);

    assert_eq!(runtime.credential(1, true, NOW).err(), Some(CodexCredentialUnavailable::Disabled));
}

#[test]
fn projections_share_one_credential_and_later_records_win() {
    let mut runtime = CodexCredentialRuntime::new();
    runtime.replace(vec![record("active", None)]);
    let credential = runtime.credential(1, false, NOW).unwrap();
    let images_projection = runtime.credential(3, false, NOW).unwrap();
    assert_eq!(images_projection.credential_id(), 1);
    assert_eq!(credential.access_token(), "access-token");
    assert_eq!(runtime.credential(2, false, NOW).err(), Some(CodexCredentialUnavailable::Missing));

    let mut later = record("unavailable", None);
    later.channel_id = 9;
    later.projection_channel_ids = vec![];
    let mut sharing = record("active", Some(NOW));
    sharing.channel_id = 5;
    sharing.projection_channel_ids = vec![3];
    sharing.refresh_generation = 8;
    runtime.replace(vec![record("active", None), sharing, later, record("mystery", None)]);
    assert_eq!(runtime.credential(1, false, NOW).unwrap().refresh_generation(), 7);
    assert_eq!(runtime.credential(3, false, NOW).err(), Some(CodexCredentialUnavailable::Expired));
    assert_eq!(runtime.credential(3, false, NOW - 1).unwrap().credential_id(), 5);
    assert_eq!(runtime.credential(9, true, NOW).err(), Some(CodexCredentialUnavailable::Unavailable));

    runtime.replace(vec![record("mystery", None)]);
    assert_eq!(runtime.credential(1, true, NOW).err(), Some(CodexCredentialUnavailable::Missing));
}

#[test]
fn debug_output_redacts_access_tokens() {
    let mut runtime = CodexCredentialRuntime::new();
    runtime.replace(vec![record("active", None)]);
    let credential = runtime.credential(1, false, NOW).unwrap();
    let images_projection = runtime.credential(3, false, NOW).unwrap();
    let debug = credential.redacted_description();

    assert_eq!(images_projection.credential_id(), 1);
    assert!(debug.contains("REDACTED"));
    assert!(!debug.contains("access-token"));
    assert_eq!(
        debug,
        "CompiledCodexCredential { account_id: account-123, access_token: REDACTED, is_fedramp: false, status: Active }"
    );
}
