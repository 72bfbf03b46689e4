//! The data model: accounts, credentials, durable usage projections and
//! per-account notification state.
//!
//! Monetary amounts are carried in micro-dollars (millionths of a USD) so
//! that every contract about costs is exact integer arithmetic.

use vstd::prelude::*;

verus! {

/// A credential for one provider account: either an API key or an OAuth
/// access token with an optional refresh token.
pub struct Credentials {
    pub api_key: Option<String>,
    pub oauth_token: Option<String>,
    pub oauth_refresh_token: Option<String>,
}

/// The mathematical value of a [`Credentials`]: each field as a character
/// sequence.
pub ghost struct CredentialsView {
    pub api_key: Option<Seq<char>>,
    pub oauth_token: Option<Seq<char>>,
    pub oauth_refresh_token: Option<Seq<char>>,
}

/// The character sequence of an optional string.
pub open spec fn view_opt_string(o: Option<String>) -> Option<Seq<char>> {
    match o {
        Some(s) => Some(s@),
        None => None,
    }
}

impl View for Credentials {
    type V = CredentialsView;

    open spec fn view(&self) -> CredentialsView {
        CredentialsView {
            api_key: view_opt_string(self.api_key),
            oauth_token: view_opt_string(self.oauth_token),
            oauth_refresh_token: view_opt_string(self.oauth_refresh_token),
        }
    }
}

impl Credentials {
    /// An API-key credential: only the key is set.
    pub fn new_api_key(api_key: String) -> (r: Self)
        ensures
            r.api_key == Some(api_key),
            r.oauth_token is None,
            r.oauth_refresh_token is None,
    {
        Self { api_key: Some(api_key), oauth_token: None, oauth_refresh_token: None }
    }

    /// An OAuth credential: the access token is set, the refresh token as
    /// given, and no API key.
    pub fn new_oauth(token: String, refresh_token: Option<String>) -> (r: Self)
        ensures
            r.api_key is None,
            r.oauth_token == Some(token),
            r.oauth_refresh_token == refresh_token,
    {
        Self { api_key: None, oauth_token: Some(token), oauth_refresh_token: refresh_token }
    }
}

impl Clone for Credentials {
    fn clone(&self) -> (r: Self)
        ensures
            r == *self,
    {
        Self {
            api_key: match &self.api_key {
                Some(s) => Some(s.clone()),
                None => None,
            },
            oauth_token: match &self.oauth_token {
                Some(s) => Some(s.clone()),
                None => None,
            },
            oauth_refresh_token: match &self.oauth_refresh_token {
                Some(s) => Some(s.clone()),
                None => None,
            },
        }
    }
}

/// A registered account: which provider it belongs to, its display name and
/// its encrypted credential blob. Only `last_synced` is ever updated.
pub struct Account {
    pub id: String,
    pub provider: String,
    pub name: String,
    pub credentials_encrypted: Vec<u8>,
    pub created_at: i64,
    pub last_synced: Option<i64>,
}

/// A durable, append-only projection of one account-level quota reading.
pub struct QuotaSnapshot {
    pub id: Option<i64>,
    pub account_id: String,
    pub timestamp: i64,
    pub tokens_input: Option<i64>,
    pub tokens_output: Option<i64>,
    pub cost_micro_usd: Option<i64>,
    pub quota_limit: Option<i64>,
    pub quota_remaining: Option<i64>,
    pub metadata: Option<String>,
}

/// A durable, append-only projection of one per-model usage reading.
pub struct ModelUsage {
    pub id: Option<i64>,
    pub account_id: String,
    pub model_name: String,
    pub timestamp: i64,
    pub tokens_input: i64,
    pub tokens_output: i64,
    pub cost_micro_usd: i64,
    pub request_count: i64,
}

/// Per-account, per-tier timestamps of the most recent notification, used
/// to debounce alerts.
pub struct NotificationState {
    pub account_id: String,
    pub last_75_percent_notified: Option<i64>,
    pub last_90_percent_notified: Option<i64>,
    pub last_95_percent_notified: Option<i64>,
}

impl Clone for NotificationState {
    fn clone(&self) -> (r: Self)
        ensures
            r == *self,
    {
        Self {
            account_id: self.account_id.clone(),
            last_75_percent_notified: self.last_75_percent_notified,
            last_90_percent_notified: self.last_90_percent_notified,
            last_95_percent_notified: self.last_95_percent_notified,
        }
    }
}

impl NotificationState {
    /// The state of an account that has never been notified on any tier.
    pub fn new_empty(account_id: String) -> (r: Self)
        ensures
            r.account_id == account_id,
            r.last_75_percent_notified is None,
            r.last_90_percent_notified is None,
            r.last_95_percent_notified is None,
    {
        Self {
            account_id,
            last_75_percent_notified: None,
            last_90_percent_notified: None,
            last_95_percent_notified: None,
        }
    }
}

/// One key-value settings row.
pub struct Setting {
    pub key: String,
    pub value: String,
}

/// What a caller supplies when registering a new account.
pub struct AddAccountRequest {
    pub provider: String,
    pub name: String,
    pub credentials: Credentials,
}

/// The public projection of an [`Account`]: everything but the encrypted
/// credential blob.
pub struct AccountResponse {
    pub id: String,
    pub provider: String,
    pub name: String,
    pub created_at: i64,
    pub last_synced: Option<i64>,
}

impl core::convert::From<Account> for AccountResponse {
    fn from(account: Account) -> (r: AccountResponse) {
        AccountResponse {
            id: account.id,
            provider: account.provider,
            name: account.name,
            created_at: account.created_at,
            last_synced: account.last_synced,
        }
    }
}

impl vstd::std_specs::convert::FromSpecImpl<Account> for AccountResponse {
    open spec fn obeys_from_spec() -> bool {
        true
    }

    open spec fn from_spec(account: Account) -> AccountResponse {
        AccountResponse {
            id: account.id,
            provider: account.provider,
            name: account.name,
            created_at: account.created_at,
            last_synced: account.last_synced,
        }
    }
}

} // verus!
