use iotics_cli::settings::{clone_settings, AuthBuilder, IoticsSettings, Settings};

fn sample_settings() -> Settings {
    Settings {
        iotics: IoticsSettings {
            host_address: "https://myhost.iotics.space:10001".to_string(),
            resolver_address: "https://resolver.example".to_string(),
            token_duration: 600,
            user_did: "did:iotics:user".to_string(),
            agent_did: "did:iotics:agent".to_string(),
            agent_key_name: "agent-key".to_string(),
            agent_name: "#agent".to_string(),
            agent_secret: "SECRET-REDACTED".to_string(),
        },
    }
}

#[test]
fn builder_starts_without_a_token() {
    let builder = AuthBuilder::new(sample_settings());
    assert!(builder.token.is_none());
    assert_eq!(builder.get_host(), "https://myhost.iotics.space:10001");
}

#[test]
fn minted_token_is_memoized_and_never_reminted() {
    let mut builder = AuthBuilder::new(sample_settings());
    let first = builder.get_token("token-one");
    assert_eq!(first, "bearer token-one");
    // a second call ignores the fresh mint and returns the memo
    let second = builder.get_token("token-two");
    assert_eq!(second, "bearer token-one");
    assert_eq!(builder.token.as_deref(), Some("bearer token-one"));
}

#[test]
fn dedicated_builder_carries_settings_and_token_over() {
    let mut builder = AuthBuilder::new(sample_settings());
    builder.get_token("token-one");
    let dedicated = AuthBuilder::from(&builder);
    assert_eq!(dedicated.token.as_deref(), Some("bearer token-one"));
    assert_eq!(dedicated.get_host(), builder.get_host());
}

#[test]
fn update_host_changes_only_the_host_address() {
    let mut builder = AuthBuilder::new(sample_settings());
    builder.get_token("token-one");
    builder.update_host("https://other.iotics.space:10001".to_string());
    assert_eq!(builder.get_host(), "https://other.iotics.space:10001");
    assert_eq!(builder.settings.iotics.resolver_address, "https://resolver.example");
    assert_eq!(builder.settings.iotics.agent_did, "did:iotics:agent");
    assert_eq!(builder.token.as_deref(), Some("bearer token-one"));
}

#[test]
fn cloned_settings_match_the_original() {
    let settings = sample_settings();
    let copy = clone_settings(&settings);
    assert_eq!(copy.iotics.host_address, settings.iotics.host_address);
    assert_eq!(copy.iotics.resolver_address, settings.iotics.resolver_address);
    assert_eq!(copy.iotics.token_duration, settings.iotics.token_duration);
    assert_eq!(copy.iotics.user_did, settings.iotics.user_did);
    assert_eq!(copy.iotics.agent_did, settings.iotics.agent_did);
    assert_eq!(copy.iotics.agent_key_name, settings.iotics.agent_key_name);
    assert_eq!(copy.iotics.agent_name, settings.iotics.agent_name);
    assert_eq!(copy.iotics.agent_secret, settings.iotics.agent_secret);
}
