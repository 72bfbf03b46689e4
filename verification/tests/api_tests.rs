use quonitor::aggregator::Aggregator;
use quonitor::aggregator::account_not_found_error;
use quonitor::aggregator::model_usage_rows;
use quonitor::aggregator::snapshot_of_quota;
use quonitor::aggregator::stamp_account_id;
use quonitor::crypto::CryptoService;
use quonitor::error::QuonitorError;
use quonitor::models::Account;
use quonitor::models::AccountResponse;
use quonitor::models::Credentials;
use quonitor::models::NotificationState;
use quonitor::parse::parse_hour;
use quonitor::parse::parse_u32;
use quonitor::parse::parse_u64;
use quonitor::providers::ModelData;
use quonitor::providers::ProviderKind;
use quonitor::providers::ProviderRegistry;
use quonitor::providers::QuotaData;
use quonitor::settings::cutoff_timestamp;
use quonitor::settings::refresh_interval_update;
use quonitor::tray::get_tray_status_color;

fn aggregator() -> Aggregator {
    Aggregator::new(ProviderRegistry::new(), CryptoService::new(vec![7u8; 32]))
}

#[test]
fn parse_u64_cases() {
    assert_eq!(parse_u64("0"), Some(0));
    assert_eq!(parse_u64("300"), Some(300));
    assert_eq!(parse_u64("18446744073709551615"), Some(u64::MAX));
    assert_eq!(parse_u64("18446744073709551616"), None);
    assert_eq!(parse_u64(""), None);
    assert_eq!(parse_u64("12a"), None);
    assert_eq!(parse_u64("-3"), None);
    assert_eq!(parse_u64(" 3"), None);
}

#[test]
fn parse_u32_and_hour_cases() {
    assert_eq!(parse_u32("4294967295"), Some(u32::MAX));
    assert_eq!(parse_u32("4294967296"), None);
    assert_eq!(parse_hour("22:00"), Some(22));
    assert_eq!(parse_hour("6:30"), Some(6));
    assert_eq!(parse_hour("7"), Some(7));
    assert_eq!(parse_hour("99:00"), Some(99));
    assert_eq!(parse_hour(":30"), None);
    assert_eq!(parse_hour("ab:00"), None);
    assert_eq!(parse_hour(""), None);
}

#[test]
fn refresh_interval_setting_reconfigures_scheduler() {
    assert_eq!(refresh_interval_update("refresh_interval_seconds", "300"), Some(300));
    assert_eq!(refresh_interval_update("refresh_interval_seconds", "x"), None);
    assert_eq!(refresh_interval_update("notifications_enabled", "300"), None);
}

#[test]
fn cutoff_reaches_back_whole_days() {
    assert_eq!(cutoff_timestamp(1_000_000, 1), 913_600);
    assert_eq!(cutoff_timestamp(1_000_000, 0), 1_000_000);
    assert_eq!(cutoff_timestamp(0, 30), -2_592_000);
}

#[test]
fn tray_color_thresholds() {
    assert_eq!(get_tray_status_color(900), "red");
    assert_eq!(get_tray_status_color(899), "yellow");
    assert_eq!(get_tray_status_color(700), "yellow");
    assert_eq!(get_tray_status_color(699), "green");
    assert_eq!(get_tray_status_color(-100), "green");
}

#[test]
fn error_describe_lines() {
    assert_eq!(
        QuonitorError::Auth("no key".to_string()).describe(),
        "Authentication error: no key"
    );
    assert_eq!(QuonitorError::Provider("503".to_string()).describe(), "Provider error: 503");
    assert_eq!(QuonitorError::Network("refused".to_string()).describe(), "Network error: refused");
    assert_eq!(
        QuonitorError::Encryption("bad tag".to_string()).describe(),
        "Encryption error: bad tag"
    );
    assert_eq!(QuonitorError::Database("locked".to_string()).describe(), "Database error: locked");
    assert_eq!(
        QuonitorError::Config("p".to_string()).describe(),
        "Invalid configuration: p"
    );
    assert_eq!(QuonitorError::Auth("no key".to_string()).message(), "no key");
}

#[test]
fn unknown_provider_and_missing_account_messages() {
    let agg = aggregator();
    match agg.resolve_provider("azure") {
        Err(QuonitorError::Config(m)) => assert_eq!(m, "Provider azure not found"),
        other => panic!("unexpected: {:?}", other),
    }
    assert_eq!(agg.resolve_provider("github").unwrap(), ProviderKind::GitHub);
    match account_not_found_error("a-1") {
        QuonitorError::Config(m) => assert_eq!(m, "Account a-1 not found"),
        other => panic!("unexpected: {:?}", other),
    }
}

#[test]
fn validation_resolves_provider_and_secret() {
    let agg = aggregator();
    let creds = Credentials::new_api_key("sk-1".to_string());
    let (kind, secret) = agg.resolve_and_authorize("openai", &creds).unwrap();
    assert_eq!(kind, ProviderKind::OpenAi);
    assert_eq!(secret, "sk-1");
    assert!(matches!(
        agg.resolve_and_authorize("openai", &Credentials::new_oauth("t".to_string(), None)),
        Err(QuonitorError::Auth(_))
    ));
    assert!(matches!(
        agg.resolve_and_authorize("nope", &creds),
        Err(QuonitorError::Config(_))
    ));
}

#[test]
fn prepare_account_fetch_round_trip() {
    let agg = aggregator();
    let creds = Credentials::new_api_key("sk-stored".to_string());
    let blob = agg.encrypt_credentials(&creds).unwrap();
    let account = Account {
        id: "a-1".to_string(),
        provider: "openai".to_string(),
        name: "work".to_string(),
        credentials_encrypted: blob,
        created_at: 0,
        last_synced: None,
    };
    let (kind, back) = agg.prepare_account_fetch(&account).unwrap();
    assert_eq!(kind, ProviderKind::OpenAi);
    assert_eq!(back.api_key.as_deref(), Some("sk-stored"));

    let unknown = Account { provider: "azure".to_string(), ..account };
    assert!(matches!(agg.prepare_account_fetch(&unknown), Err(QuonitorError::Config(_))));
}

#[test]
fn stamping_fills_the_account_identifier() {
    let quota = QuotaData {
        account_id: String::new(),
        timestamp: 9,
        tokens_input: Some(1),
        tokens_output: Some(2),
        cost_micro_usd: Some(3),
        quota_limit: Some(4),
        quota_remaining: Some(5),
        model_breakdown: Vec::<ModelData>::new(),
        metadata: Some("m".to_string()),
    };
    let stamped = stamp_account_id(quota, "a-1");
    assert_eq!(stamped.account_id, "a-1");
    assert_eq!(stamped.timestamp, 9);
    assert_eq!(stamped.metadata.as_deref(), Some("m"));
}

#[test]
fn durable_projections_of_a_reading() {
    let quota = QuotaData {
        account_id: "a-1".to_string(),
        timestamp: 42,
        tokens_input: Some(10),
        tokens_output: Some(20),
        cost_micro_usd: Some(30),
        quota_limit: Some(100),
        quota_remaining: Some(60),
        model_breakdown: vec![
            ModelData {
                model_name: "gpt-4o".to_string(),
                tokens_input: 7,
                tokens_output: 8,
                cost_micro_usd: 9,
                request_count: 2,
            },
        ],
        metadata: None,
    };
    let snapshot = snapshot_of_quota(&quota);
    assert_eq!(snapshot.id, None);
    assert_eq!(snapshot.account_id, "a-1");
    assert_eq!(snapshot.timestamp, 42);
    assert_eq!(snapshot.tokens_input, Some(10));
    assert_eq!(snapshot.quota_remaining, Some(60));
    assert_eq!(snapshot.metadata, None);

    let rows = model_usage_rows(&quota);
    assert_eq!(rows.len(), 1);
    assert_eq!(rows[0].account_id, "a-1");
    assert_eq!(rows[0].model_name, "gpt-4o");
    assert_eq!(rows[0].timestamp, 42);
    assert_eq!(rows[0].tokens_input, 7);
    assert_eq!(rows[0].tokens_output, 8);
    assert_eq!(rows[0].cost_micro_usd, 9);
    assert_eq!(rows[0].request_count, 2);
}

#[test]
fn credential_constructors() {
    let api = Credentials::new_api_key("k".to_string());
    assert_eq!(api.api_key.as_deref(), Some("k"));
    assert_eq!(api.oauth_token, None);
    assert_eq!(api.oauth_refresh_token, None);

    let oauth = Credentials::new_oauth("t".to_string(), Some("r".to_string()));
    assert_eq!(oauth.api_key, None);
    assert_eq!(oauth.oauth_token.as_deref(), Some("t"));
    assert_eq!(oauth.oauth_refresh_token.as_deref(), Some("r"));
}

#[test]
fn account_response_hides_the_credential_blob() {
    let account = Account {
        id: "a-1".to_string(),
        provider: "openai".to_string(),
        name: "work".to_string(),
        credentials_encrypted: vec![1, 2, 3],
        created_at: 11,
        last_synced: Some(22),
    };
    let response = AccountResponse::from(account);
    assert_eq!(response.id, "a-1");
    assert_eq!(response.provider, "openai");
    assert_eq!(response.name, "work");
    assert_eq!(response.created_at, 11);
    assert_eq!(response.last_synced, Some(22));
}

#[test]
fn notification_state_default_row() {
    let state = NotificationState::new_empty("a-1".to_string());
    assert_eq!(state.account_id, "a-1");
    assert_eq!(state.last_75_percent_notified, None);
    assert_eq!(state.last_90_percent_notified, None);
    assert_eq!(state.last_95_percent_notified, None);
}
