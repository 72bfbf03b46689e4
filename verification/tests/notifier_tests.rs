use quonitor::models::NotificationState;
use quonitor::notifier::CheckOutcome;
use quonitor::notifier::Tier;
use quonitor::notifier::calculate_usage_percentage;
use quonitor::notifier::check_and_notify_decision;
use quonitor::notifier::evaluate_tiers;
use quonitor::notifier::is_quiet_hours_at;
use quonitor::notifier::should_notify_threshold;
use quonitor::notifier::stamp_tier;
use quonitor::providers::ModelData;
use quonitor::providers::QuotaData;

fn quota_with(limit: Option<i64>, remaining: Option<i64>) -> QuotaData {
    QuotaData {
        account_id: "acct1".to_string(),
        timestamp: 1_700_000_000,
        tokens_input: Some(10),
        tokens_output: Some(20),
        cost_micro_usd: Some(0),
        quota_limit: limit,
        quota_remaining: remaining,
        model_breakdown: Vec::<ModelData>::new(),
        metadata: None,
    }
}

fn empty_state(id: &str) -> NotificationState {
    NotificationState {
        account_id: id.to_string(),
        last_75_percent_notified: None,
        last_90_percent_notified: None,
        last_95_percent_notified: None,
    }
}

#[test]
fn percentage_exact_value() {
    assert_eq!(calculate_usage_percentage(&quota_with(Some(1000), Some(50))), Some(950));
    assert_eq!(calculate_usage_percentage(&quota_with(Some(1000), Some(40))), Some(960));
    assert_eq!(calculate_usage_percentage(&quota_with(Some(3), Some(1))), Some(666));
    assert_eq!(calculate_usage_percentage(&quota_with(Some(1000), Some(0))), Some(1000));
}

#[test]
fn percentage_undeterminable() {
    assert_eq!(calculate_usage_percentage(&quota_with(None, Some(50))), None);
    assert_eq!(calculate_usage_percentage(&quota_with(Some(1000), None)), None);
    assert_eq!(calculate_usage_percentage(&quota_with(Some(0), Some(50))), None);
    assert_eq!(calculate_usage_percentage(&quota_with(Some(-5), Some(50))), None);
}

#[test]
fn percentage_negative_when_remaining_exceeds_limit() {
    assert_eq!(calculate_usage_percentage(&quota_with(Some(1000), Some(1100))), Some(-100));
}

#[test]
fn should_notify_cases() {
    assert!(should_notify_threshold(&None, 100));
    assert!(should_notify_threshold(&Some(99), 100));
    assert!(!should_notify_threshold(&Some(100), 100));
    assert!(!should_notify_threshold(&Some(101), 100));
}

#[test]
fn tier_priority_96_percent_fires_critical_only() {
    let state = empty_state("acct1");
    let fired = evaluate_tiers(&state, 960, 1_700_000_000 - 86_400);
    assert_eq!(fired, Some(Tier::Critical95));
}

#[test]
fn tier_90_band() {
    let state = empty_state("acct1");
    assert_eq!(evaluate_tiers(&state, 949, 0), Some(Tier::Caution90));
    assert_eq!(evaluate_tiers(&state, 900, 0), Some(Tier::Caution90));
    assert_eq!(evaluate_tiers(&state, 899, 0), Some(Tier::Warning75));
    assert_eq!(evaluate_tiers(&state, 750, 0), Some(Tier::Warning75));
    assert_eq!(evaluate_tiers(&state, 749, 0), None);
}

#[test]
fn debounce_critical_does_not_refire_within_a_day() {
    let now = 1_700_000_000;
    let state = empty_state("acct1");
    let fired = evaluate_tiers(&state, 950, now - 86_400);
    assert_eq!(fired, Some(Tier::Critical95));
    let stamped = stamp_tier(state, Tier::Critical95, now);
    // Re-evaluating the same percentage immediately after the fire: the
    // critical tier is debounced; the next lower tier takes its turn.
    let again = evaluate_tiers(&stamped, 950, now + 10 - 86_400);
    assert_ne!(again, Some(Tier::Critical95));
    assert_eq!(again, Some(Tier::Caution90));
    // Once the rolling day has passed, the critical tier may fire again.
    let much_later = evaluate_tiers(&stamped, 950, now + 86_401);
    assert_eq!(much_later, Some(Tier::Critical95));
}

#[test]
fn quiet_hours_wrapping_window() {
    let start = Some("22:00".to_string());
    let end = Some("06:00".to_string());
    for hour in 0..24u32 {
        let expected = hour >= 22 || hour < 6;
        assert_eq!(is_quiet_hours_at(&start, &end, hour), expected, "hour {}", hour);
    }
}

#[test]
fn quiet_hours_plain_window() {
    let start = Some("08:00".to_string());
    let end = Some("17:00".to_string());
    for hour in 0..24u32 {
        let expected = (8..17).contains(&hour);
        assert_eq!(is_quiet_hours_at(&start, &end, hour), expected, "hour {}", hour);
    }
}

#[test]
fn quiet_hours_malformed_or_absent_is_never_quiet() {
    assert!(!is_quiet_hours_at(&None, &None, 23));
    assert!(!is_quiet_hours_at(&Some("22:00".to_string()), &None, 23));
    assert!(!is_quiet_hours_at(&Some("".to_string()), &Some("06:00".to_string()), 23));
    assert!(!is_quiet_hours_at(&Some("ab:00".to_string()), &Some("06:00".to_string()), 23));
    assert!(!is_quiet_hours_at(&Some("22:00".to_string()), &Some(":30".to_string()), 23));
}

#[test]
fn quiet_hours_equal_bounds_cover_every_hour() {
    let start = Some("08:00".to_string());
    let end = Some("08:00".to_string());
    for hour in [0u32, 8, 23] {
        assert!(is_quiet_hours_at(&start, &end, hour));
    }
}

#[test]
fn end_to_end_95_percent_check() {
    let now = 1_700_000_000;
    let quota = quota_with(Some(1000), Some(50));
    let outcome = check_and_notify_decision(&quota, &None, &None, &None, 12, None, now);
    match outcome {
        CheckOutcome::Evaluated { fired, state } => {
            assert_eq!(fired, Some(Tier::Critical95));
            assert_eq!(state.account_id, "acct1");
            assert_eq!(state.last_95_percent_notified, Some(now));
            assert_eq!(state.last_90_percent_notified, None);
            assert_eq!(state.last_75_percent_notified, None);
        }
        CheckOutcome::Skipped => panic!("check should have evaluated"),
    }
}

#[test]
fn check_skipped_when_disabled() {
    let quota = quota_with(Some(1000), Some(50));
    let disabled = Some("false".to_string());
    let outcome = check_and_notify_decision(&quota, &disabled, &None, &None, 12, None, 1_700_000_000);
    assert!(matches!(outcome, CheckOutcome::Skipped));
}

#[test]
fn check_runs_when_enabled_setting_is_exactly_true() {
    let quota = quota_with(Some(1000), Some(990));
    let enabled = Some("true".to_string());
    let outcome = check_and_notify_decision(&quota, &enabled, &None, &None, 12, None, 1_700_000_000);
    match outcome {
        CheckOutcome::Evaluated { fired, .. } => assert_eq!(fired, None),
        CheckOutcome::Skipped => panic!("check should have evaluated"),
    }
}

#[test]
fn check_skipped_in_quiet_hours() {
    let quota = quota_with(Some(1000), Some(50));
    let start = Some("22:00".to_string());
    let end = Some("06:00".to_string());
    let outcome = check_and_notify_decision(&quota, &None, &start, &end, 23, None, 1_700_000_000);
    assert!(matches!(outcome, CheckOutcome::Skipped));
    let outcome = check_and_notify_decision(&quota, &None, &start, &end, 12, None, 1_700_000_000);
    assert!(matches!(outcome, CheckOutcome::Evaluated { .. }));
}

#[test]
fn check_without_percentage_is_skipped_and_persists_nothing() {
    let quota = quota_with(None, None);
    let outcome = check_and_notify_decision(&quota, &None, &None, &None, 12, None, 1_700_000_000);
    assert!(matches!(outcome, CheckOutcome::Skipped));
}

#[test]
fn clock_backed_check_respects_disabled_setting() {
    // Whatever the machine's clock and time zone read, a disabled
    // setting skips the check.
    let quota = quota_with(Some(1000), Some(50));
    let disabled = Some("false".to_string());
    let outcome =
        quonitor::notifier::check_and_notify_now(&quota, &disabled, &None, &None, None);
    assert!(matches!(outcome, CheckOutcome::Skipped));
    // With everything at defaults and a critical reading, the check
    // evaluates and stamps the critical tier at some clock reading.
    let outcome = quonitor::notifier::check_and_notify_now(&quota, &None, &None, &None, None);
    match outcome {
        CheckOutcome::Evaluated { fired, state } => {
            assert_eq!(fired, Some(Tier::Critical95));
            assert!(state.last_95_percent_notified.is_some());
        }
        CheckOutcome::Skipped => panic!("check should have evaluated"),
    }
}

#[test]
fn check_persists_default_state_even_without_fire() {
    let quota = quota_with(Some(1000), Some(900));
    let outcome = check_and_notify_decision(&quota, &None, &None, &None, 12, None, 1_700_000_000);
    match outcome {
        CheckOutcome::Evaluated { fired, state } => {
            assert_eq!(fired, None);
            assert_eq!(state.account_id, "acct1");
            assert_eq!(state.last_75_percent_notified, None);
        }
        CheckOutcome::Skipped => panic!("check should have evaluated"),
    }
}
