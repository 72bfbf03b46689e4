use quonitor::error::QuonitorError;
use quonitor::models::Credentials;
use quonitor::providers::ProviderKind;
use quonitor::providers::ProviderRegistry;
use quonitor::providers::UsagePoint;
use quonitor::providers::aggregate_openai_usage;
use quonitor::providers::anthropic_placeholder_quota;
use quonitor::providers::calculate_anthropic_cost;
use quonitor::providers::calculate_openai_cost;
use quonitor::providers::contains_substr;
use quonitor::providers::credential_for;
use quonitor::providers::github_placeholder_quota;
use quonitor::providers::google_placeholder_quota;
use quonitor::providers::str_eq_str;

#[test]
fn registry_resolves_known_identifiers() {
    let registry = ProviderRegistry::new();
    assert_eq!(registry.get("openai"), Some(ProviderKind::OpenAi));
    assert_eq!(registry.get("anthropic"), Some(ProviderKind::Anthropic));
    assert_eq!(registry.get("google"), Some(ProviderKind::Google));
    assert_eq!(registry.get("github"), Some(ProviderKind::GitHub));
    assert_eq!(registry.get("OpenAI"), None);
    assert_eq!(registry.get(""), None);
    assert_eq!(registry.get("azure"), None);
}

#[test]
fn registry_lists_every_provider() {
    let names = ProviderRegistry::new().list_providers();
    assert_eq!(names, vec!["openai", "anthropic", "google", "github"]);
}

#[test]
fn oauth_support_and_names() {
    assert!(!ProviderKind::OpenAi.supports_oauth());
    assert!(!ProviderKind::Anthropic.supports_oauth());
    assert!(ProviderKind::Google.supports_oauth());
    assert!(ProviderKind::GitHub.supports_oauth());
    assert_eq!(ProviderKind::OpenAi.provider_name(), "OpenAI");
    assert_eq!(ProviderKind::Anthropic.provider_name(), "Anthropic");
    assert_eq!(ProviderKind::Google.provider_name(), "Google");
    assert_eq!(ProviderKind::GitHub.provider_name(), "GitHub Copilot");
}

#[test]
fn string_helpers() {
    assert!(str_eq_str("abc", "abc"));
    assert!(!str_eq_str("abc", "abd"));
    assert!(!str_eq_str("abc", "ab"));
    assert!(contains_substr("gpt-4o-mini", "gpt-4o"));
    assert!(contains_substr("anything", ""));
    assert!(!contains_substr("gpt-3.5", "gpt-4"));
}

#[test]
fn credential_selection_per_provider() {
    let api = Credentials::new_api_key("sk-1".to_string());
    let oauth = Credentials::new_oauth("tok-1".to_string(), None);

    assert_eq!(credential_for(ProviderKind::OpenAi, &api).unwrap(), "sk-1");
    assert_eq!(credential_for(ProviderKind::Anthropic, &api).unwrap(), "sk-1");
    assert_eq!(credential_for(ProviderKind::Google, &oauth).unwrap(), "tok-1");
    assert_eq!(credential_for(ProviderKind::GitHub, &oauth).unwrap(), "tok-1");
    // GitHub falls back to the API key when no OAuth token is present.
    assert_eq!(credential_for(ProviderKind::GitHub, &api).unwrap(), "sk-1");
}

#[test]
fn missing_credentials_report_auth_errors() {
    let api = Credentials::new_api_key("sk-1".to_string());
    let oauth = Credentials::new_oauth("tok-1".to_string(), None);
    let none = Credentials { api_key: None, oauth_token: None, oauth_refresh_token: None };

    match credential_for(ProviderKind::OpenAi, &oauth) {
        Err(QuonitorError::Auth(m)) => assert_eq!(m, "OpenAI requires API key"),
        other => panic!("unexpected: {:?}", other.map(|_| ())),
    }
    match credential_for(ProviderKind::Anthropic, &none) {
        Err(QuonitorError::Auth(m)) => assert_eq!(m, "Anthropic requires API key"),
        other => panic!("unexpected: {:?}", other.map(|_| ())),
    }
    match credential_for(ProviderKind::Google, &api) {
        Err(QuonitorError::Auth(m)) => assert_eq!(m, "Google requires OAuth token"),
        other => panic!("unexpected: {:?}", other.map(|_| ())),
    }
    match credential_for(ProviderKind::GitHub, &none) {
        Err(QuonitorError::Auth(m)) => assert_eq!(m, "GitHub requires OAuth token or PAT"),
        other => panic!("unexpected: {:?}", other.map(|_| ())),
    }
}

#[test]
fn placeholder_quotas() {
    let q = anthropic_placeholder_quota(123);
    assert_eq!(q.account_id, "");
    assert_eq!(q.timestamp, 123);
    assert_eq!(q.tokens_input, Some(0));
    assert_eq!(q.tokens_output, Some(0));
    assert_eq!(q.cost_micro_usd, Some(0));
    assert_eq!(q.quota_limit, None);
    assert_eq!(q.quota_remaining, None);
    assert!(q.model_breakdown.is_empty());
    assert_eq!(q.metadata.as_deref(), Some("Anthropic API does not support usage tracking yet"));

    let q = github_placeholder_quota(5);
    assert_eq!(q.account_id, "");
    assert_eq!(q.metadata.as_deref(), Some("GitHub provider not fully implemented yet"));

    let q = google_placeholder_quota(7);
    assert_eq!(q.account_id, "");
    assert_eq!(q.metadata.as_deref(), Some("Google Cloud tracking enabled"));
}

#[test]
fn openai_cost_exact_values() {
    // One million tokens each way on gpt-4o: $2.50 in, $10.00 out.
    assert_eq!(calculate_openai_cost("gpt-4o", 1_000_000, 1_000_000), Some(12_500_000));
    // Model matching prefers the more specific substring.
    assert_eq!(calculate_openai_cost("gpt-4-turbo-preview", 1_000_000, 0), Some(10_000_000));
    assert_eq!(calculate_openai_cost("gpt-4", 1_000_000, 0), Some(30_000_000));
    assert_eq!(calculate_openai_cost("gpt-3.5-turbo", 2_000_000, 0), Some(1_000_000));
    assert_eq!(calculate_openai_cost("o1-preview", 0, 1_000_000), Some(60_000_000));
    assert_eq!(calculate_openai_cost("o1-mini", 1_000_000, 1_000_000), Some(15_000_000));
    // Unknown models use the documented default tier: $1 in, $2 out.
    assert_eq!(calculate_openai_cost("mystery", 500_000, 250_000), Some(1_000_000));
    // Partial millions round down per term.
    assert_eq!(calculate_openai_cost("gpt-4o", 1, 0), Some(2));
}

#[test]
fn anthropic_cost_exact_values() {
    assert_eq!(calculate_anthropic_cost("opus-latest", 1_000_000, 1_000_000), Some(90_000_000));
    assert_eq!(calculate_anthropic_cost("sonnet-latest", 1_000_000, 0), Some(3_000_000));
    assert_eq!(calculate_anthropic_cost("haiku-latest", 4_000_000, 0), Some(1_000_000));
    // Unknown models default to the sonnet tier.
    assert_eq!(calculate_anthropic_cost("mystery", 1_000_000, 1_000_000), Some(18_000_000));
}

fn point(model: Option<&str>, requests: u64, input: u64, output: u64) -> UsagePoint {
    UsagePoint {
        model: model.map(|m| m.to_string()),
        requests,
        input_tokens: input,
        output_tokens: output,
    }
}

#[test]
fn aggregation_groups_by_model_in_first_occurrence_order() {
    let points = vec![
        point(Some("gpt-4o"), 10, 100, 200),
        point(None, 1, 5, 5),
        point(Some("gpt-4o"), 2, 50, 50),
    ];
    let q = aggregate_openai_usage(&points, 777).expect("fits");
    assert_eq!(q.account_id, "");
    assert_eq!(q.timestamp, 777);
    assert_eq!(q.quota_limit, None);
    assert_eq!(q.quota_remaining, None);
    assert_eq!(q.metadata, None);
    assert_eq!(q.tokens_input, Some(155));
    assert_eq!(q.tokens_output, Some(255));
    assert_eq!(q.model_breakdown.len(), 2);

    let first = &q.model_breakdown[0];
    assert_eq!(first.model_name, "gpt-4o");
    assert_eq!(first.tokens_input, 150);
    assert_eq!(first.tokens_output, 250);
    assert_eq!(first.request_count, 12);
    // 150 * 2.50 / 1e6 + 250 * 10.00 / 1e6 dollars, in micro-dollars.
    assert_eq!(first.cost_micro_usd, 150 * 2_500_000 / 1_000_000 + 250 * 10_000_000 / 1_000_000);

    let second = &q.model_breakdown[1];
    assert_eq!(second.model_name, "unknown");
    assert_eq!(second.tokens_input, 5);
    assert_eq!(second.tokens_output, 5);
    assert_eq!(second.request_count, 1);
    assert_eq!(second.cost_micro_usd, 5 * 1_000_000 / 1_000_000 + 5 * 2_000_000 / 1_000_000);

    assert_eq!(q.cost_micro_usd, Some(first.cost_micro_usd + second.cost_micro_usd));
}

#[test]
fn aggregation_of_no_points_is_all_zero() {
    let q = aggregate_openai_usage(&Vec::new(), 1).expect("fits");
    assert_eq!(q.tokens_input, Some(0));
    assert_eq!(q.tokens_output, Some(0));
    assert_eq!(q.cost_micro_usd, Some(0));
    assert!(q.model_breakdown.is_empty());
}

#[test]
fn aggregation_overflowing_i64_is_refused() {
    let points = vec![
        point(Some("gpt-4o"), 1, u64::MAX, 0),
        point(Some("gpt-4o"), 1, u64::MAX, 0),
    ];
    assert!(aggregate_openai_usage(&points, 1).is_none());
}
