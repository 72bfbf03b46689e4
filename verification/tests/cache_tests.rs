use quonitor::cache::Cache;
use quonitor::providers::ModelData;
use quonitor::providers::QuotaData;
use quonitor::scheduler::apply_fetch_results;

fn quota(account: &str, timestamp: i64) -> QuotaData {
    QuotaData {
        account_id: account.to_string(),
        timestamp,
        tokens_input: Some(1),
        tokens_output: Some(2),
        cost_micro_usd: Some(3),
        quota_limit: None,
        quota_remaining: None,
        model_breakdown: Vec::<ModelData>::new(),
        metadata: None,
    }
}

#[test]
fn last_write_wins() {
    let mut cache = Cache::new();
    cache.set("acct1".to_string(), quota("acct1", 100));
    cache.set("acct1".to_string(), quota("acct1", 200));
    let got = cache.get("acct1").expect("entry must exist");
    assert_eq!(got.timestamp, 200);
}

#[test]
fn get_all_counts_distinct_keys_not_removed() {
    let mut cache = Cache::new();
    assert_eq!(cache.get_all().len(), 0);
    cache.set("acct1".to_string(), quota("acct1", 1));
    cache.set("acct2".to_string(), quota("acct2", 2));
    cache.set("acct1".to_string(), quota("acct1", 3));
    assert_eq!(cache.get_all().len(), 2);
    cache.remove("acct1");
    assert_eq!(cache.get_all().len(), 1);
    assert_eq!(cache.get_all()[0].account_id, "acct2");
}

#[test]
fn get_missing_is_none() {
    let mut cache = Cache::new();
    assert!(cache.get("nope").is_none());
    cache.set("acct1".to_string(), quota("acct1", 1));
    assert!(cache.get("acct2").is_none());
    cache.remove("acct1");
    assert!(cache.get("acct1").is_none());
}

#[test]
fn remove_absent_key_changes_nothing() {
    let mut cache = Cache::new();
    cache.set("acct1".to_string(), quota("acct1", 1));
    cache.remove("ghost");
    assert_eq!(cache.get_all().len(), 1);
    assert!(cache.get("acct1").is_some());
}

#[test]
fn clear_empties_the_store() {
    let mut cache = Cache::new();
    cache.set("acct1".to_string(), quota("acct1", 1));
    cache.set("acct2".to_string(), quota("acct2", 2));
    cache.clear();
    assert_eq!(cache.get_all().len(), 0);
    assert!(cache.get("acct1").is_none());
}

#[test]
fn cycle_results_update_cache_per_account() {
    let mut cache = Cache::new();
    let results = vec![
        quota("acct1", 10),
        quota("acct2", 20),
        quota("acct1", 30),
    ];
    apply_fetch_results(&mut cache, &results);
    assert_eq!(cache.get_all().len(), 2);
    assert_eq!(cache.get("acct1").expect("present").timestamp, 30);
    assert_eq!(cache.get("acct2").expect("present").timestamp, 20);
}
