//! The fetch pipeline's decisions: resolving an account's provider,
//! unsealing and parsing its credential, stamping the account identifier
//! onto a reading, projecting a reading into its durable rows, and
//! keeping one account's failure away from the others' results.
//!
//! The store calls and the provider HTTP calls around these steps live in
//! the surrounding application; everything here is a function from plain
//! values to plain values, proved exact.

use vstd::prelude::*;

use crate::codec::decode_credentials;
use crate::codec::encode_credentials;
use crate::codec::spec_decode_credentials;
use crate::codec::spec_encode_credentials;
use crate::crypto::CryptoService;
use crate::crypto::aead_open;
use crate::error::QuonitorError;
use crate::models::Account;
use crate::models::Credentials;
use crate::models::CredentialsView;
use crate::models::ModelUsage;
use crate::models::QuotaSnapshot;
use crate::providers::ProviderKind;
use crate::providers::ProviderRegistry;
use crate::providers::QuotaData;
use crate::providers::QuotaDataView;
use crate::providers::credential_for;
use crate::providers::spec_missing_credential_message;
use crate::providers::spec_provider_of;
use crate::providers::spec_required_secret;

verus! {

/// The diagnostic carried by the `Config` error for an unknown provider
/// identifier.
pub open spec fn spec_provider_not_found_message(id: Seq<char>) -> Seq<char> {
    "Provider "@ + id + " not found"@
}

/// The diagnostic carried by the `Config` error for a missing account.
pub open spec fn spec_account_not_found_message(id: Seq<char>) -> Seq<char> {
    "Account "@ + id + " not found"@
}

/// What unsealing and parsing a stored credential blob yields: the
/// credential it frames, when the tag verifies and the framing is whole.
pub open spec fn spec_decrypt_credentials(key: Seq<u8>, blob: Seq<u8>) -> Option<CredentialsView> {
    match aead_open(key, blob) {
        Some(p) => spec_decode_credentials(p),
        None => None,
    }
}

/// The `Config` error reported when no account has the given identifier;
/// the store lookup that decides this runs in the surrounding
/// application.
pub fn account_not_found_error(account_id: &str) -> (r: QuonitorError)
    ensures
        r matches QuonitorError::Config(m) && m@ == spec_account_not_found_message(account_id@),
{
    let mut m = String::from_str("Account ");
    m.append(account_id);
    m.append(" not found");
    QuonitorError::Config(m)
}

/// Orchestrates one account's fetch: resolve the provider, unseal the
/// credential, and shape the result; the store and the network stay
/// outside.
pub struct Aggregator {
    pub providers: ProviderRegistry,
    pub crypto: CryptoService,
}

impl Aggregator {
    /// The cipher's key is well-formed.
    pub open spec fn wf(&self) -> bool {
        self.crypto.wf()
    }

    /// An aggregator over the given registry and cipher.
    pub fn new(providers: ProviderRegistry, crypto: CryptoService) -> (r: Self)
        requires
            crypto.wf(),
        ensures
            r.wf(),
            r.crypto == crypto,
    {
        Aggregator { providers, crypto }
    }

    /// Resolves a provider identifier: the provider exactly when the
    /// identifier names one, a `Config` error saying which identifier
    /// was unknown otherwise.
    pub fn resolve_provider(&self, provider_id: &str) -> (r: Result<ProviderKind, QuonitorError>)
        ensures
            r matches Ok(k) ==> spec_provider_of(provider_id@) == Some(k),
            r is Err <==> spec_provider_of(provider_id@) is None,
            r matches Err(e) ==> e matches QuonitorError::Config(m) && m@
                == spec_provider_not_found_message(provider_id@),
    {
        match self.providers.get(provider_id) {
            Some(kind) => Ok(kind),
            None => {
                let mut m = String::from_str("Provider ");
                m.append(provider_id);
                m.append(" not found");
                Err(QuonitorError::Config(m))
            },
        }
    }

    /// The credential-side half of validating a new account: resolves
    /// the provider and picks the secret it authenticates with. Succeeds
    /// exactly when the identifier names a provider and the credential
    /// carries the field that provider needs; the network call that
    /// proves the secret works follows in the surrounding application.
    pub fn resolve_and_authorize(&self, provider_id: &str, credentials: &Credentials) -> (r:
        Result<(ProviderKind, String), QuonitorError>)
        ensures
            r matches Ok((k, s)) ==> spec_provider_of(provider_id@) == Some(k)
                && spec_required_secret(k, credentials@) == Some(s@),
            r is Err <==> (spec_provider_of(provider_id@) is None || spec_required_secret(
                spec_provider_of(provider_id@)->Some_0,
                credentials@,
            ) is None),
            r matches Err(e) ==> (e matches QuonitorError::Config(m) && m@
                == spec_provider_not_found_message(provider_id@) && spec_provider_of(provider_id@)
                is None) || (e matches QuonitorError::Auth(m) && spec_provider_of(provider_id@)
                matches Some(k) && m@ == spec_missing_credential_message(k)),
    {
        let kind = match self.resolve_provider(provider_id) {
            Ok(k) => k,
            Err(e) => {
                return Err(e);
            },
        };
        match credential_for(kind, credentials) {
            Ok(secret) => Ok((kind, secret)),
            Err(e) => Err(e),
        }
    }

    /// Seals a credential for storage. The blob unseals and parses back
    /// to exactly the given credential, and sealing is owed to succeed
    /// whenever the framed credential is within GCM's plaintext limit of
    /// 2^36 - 32 bytes.
    pub fn encrypt_credentials(&self, credentials: &Credentials) -> (r: Result<
        Vec<u8>,
        QuonitorError,
    >)
        requires
            self.wf(),
        ensures
            r matches Ok(blob) ==> aead_open(self.crypto.spec_key(), blob@) == Some(
                spec_encode_credentials(credentials@),
            ) && spec_decrypt_credentials(self.crypto.spec_key(), blob@) == Some(credentials@),
            spec_encode_credentials(credentials@).len() <= 0xF_FFFF_FFE0 ==> r is Ok,
            r matches Err(e) ==> e matches QuonitorError::Encryption(_),
    {
        let framed = encode_credentials(credentials);
        self.crypto.encrypt_bytes(framed.as_slice())
    }

    /// Unseals and parses a stored credential blob: the credential
    /// exactly when the authentication tag verifies and the framing is
    /// whole, an `Encryption` error otherwise.
    pub fn decrypt_credentials(&self, blob: &[u8]) -> (r: Result<Credentials, QuonitorError>)
        requires
            self.wf(),
        ensures
            r matches Ok(c) ==> spec_decrypt_credentials(self.crypto.spec_key(), blob@) == Some(
                c@,
            ),
            r is Err <==> spec_decrypt_credentials(self.crypto.spec_key(), blob@) is None,
            r matches Err(e) ==> e matches QuonitorError::Encryption(_),
    {
        match self.crypto.decrypt_bytes(blob) {
            Ok(framed) => decode_credentials(&framed),
            Err(e) => Err(e),
        }
    }

    /// The decisions at the head of one account's fetch: which provider
    /// serves the account, and the credential its stored blob unseals
    /// to. Fails with `Config` exactly on an unknown provider and with
    /// `Encryption` exactly on a blob that does not unseal and parse.
    pub fn prepare_account_fetch(&self, account: &Account) -> (r: Result<
        (ProviderKind, Credentials),
        QuonitorError,
    >)
        requires
            self.wf(),
        ensures
            r matches Ok((k, c)) ==> spec_provider_of(account.provider@) == Some(k)
                && spec_decrypt_credentials(
                self.crypto.spec_key(),
                account.credentials_encrypted@,
            ) == Some(c@),
            r is Err <==> (spec_provider_of(account.provider@) is None
                || spec_decrypt_credentials(
                self.crypto.spec_key(),
                account.credentials_encrypted@,
            ) is None),
            r matches Err(e) ==> (e matches QuonitorError::Config(m) && m@
                == spec_provider_not_found_message(account.provider@)) || (e matches
                QuonitorError::Encryption(_) && spec_provider_of(account.provider@) is Some),
    {
        let kind = match self.resolve_provider(account.provider.as_str()) {
            Ok(k) => k,
            Err(e) => {
                return Err(e);
            },
        };
        match self.decrypt_credentials(account.credentials_encrypted.as_slice()) {
            Ok(credentials) => Ok((kind, credentials)),
            Err(e) => Err(e),
        }
    }
}

/// Stamps the account identifier onto a provider's reading; providers
/// return it empty and everything downstream relies on it being filled.
pub fn stamp_account_id(quota: QuotaData, account_id: &str) -> (r: QuotaData)
    ensures
        r@ == (QuotaDataView { account_id: account_id@, ..quota@ }),
{
    QuotaData { account_id: String::from_str(account_id), ..quota }
}

/// The durable account-level projection of a reading: same account,
/// timestamp, counts, cost and metadata, with no row identifier yet.
pub fn snapshot_of_quota(quota: &QuotaData) -> (r: QuotaSnapshot)
    ensures
        r.id is None,
        r.account_id@ == quota@.account_id,
        r.timestamp as int == quota@.timestamp,
        crate::providers::view_opt_i64(r.tokens_input) == quota@.tokens_input,
        crate::providers::view_opt_i64(r.tokens_output) == quota@.tokens_output,
        crate::providers::view_opt_i64(r.cost_micro_usd) == quota@.cost_micro_usd,
        crate::providers::view_opt_i64(r.quota_limit) == quota@.quota_limit,
        crate::providers::view_opt_i64(r.quota_remaining) == quota@.quota_remaining,
        crate::models::view_opt_string(r.metadata) == quota@.metadata,
{
    QuotaSnapshot {
        id: None,
        account_id: quota.account_id.clone(),
        timestamp: quota.timestamp,
        tokens_input: quota.tokens_input,
        tokens_output: quota.tokens_output,
        cost_micro_usd: quota.cost_micro_usd,
        quota_limit: quota.quota_limit,
        quota_remaining: quota.quota_remaining,
        metadata: match &quota.metadata {
            Some(s) => Some(s.clone()),
            None => None,
        },
    }
}

/// The durable per-model projections of a reading: one row per breakdown
/// entry, in order, each stamped with the reading's account and
/// timestamp.
pub fn model_usage_rows(quota: &QuotaData) -> (r: Vec<ModelUsage>)
    ensures
        r@.len() == quota@.model_breakdown.len(),
        forall|i: int|
            0 <= i < r@.len() ==> {
                let row = #[trigger] r@[i];
                let m = quota@.model_breakdown[i];
                row.id is None && row.account_id@ == quota@.account_id && row.model_name@
                    == m.model_name && row.timestamp as int == quota@.timestamp
                    && row.tokens_input as int == m.tokens_input && row.tokens_output as int
                    == m.tokens_output && row.cost_micro_usd as int == m.cost_micro_usd
                    && row.request_count as int == m.request_count
            },
{
    let n = quota.model_breakdown.len();
    let mut rows: Vec<ModelUsage> = Vec::new();
    let mut i: usize = 0;
    while i < n
        invariant
            i <= n,
            n == quota@.model_breakdown.len(),
            rows@.len() == i,
            forall|j: int|
                0 <= j < i ==> {
                    let row = #[trigger] rows@[j];
                    let m = quota@.model_breakdown[j];
                    row.id is None && row.account_id@ == quota@.account_id && row.model_name@
                        == m.model_name && row.timestamp as int == quota@.timestamp
                        && row.tokens_input as int == m.tokens_input && row.tokens_output as int
                        == m.tokens_output && row.cost_micro_usd as int == m.cost_micro_usd
                        && row.request_count as int == m.request_count
                },
        decreases n - i,
    {
        let model = &quota.model_breakdown[i];
        rows.push(
            ModelUsage {
                id: None,
                account_id: quota.account_id.clone(),
                model_name: model.model_name.clone(),
                timestamp: quota.timestamp,
                tokens_input: model.tokens_input,
                tokens_output: model.tokens_output,
                cost_micro_usd: model.cost_micro_usd,
                request_count: model.request_count,
            },
        );
        i = i + 1;
    }
    rows
}

/// The readings of the accounts that succeeded this cycle, in order,
/// with every failed account's error left out.
pub open spec fn spec_successes(results: Seq<Result<QuotaData, QuonitorError>>) -> Seq<
    QuotaDataView,
>
    decreases results.len(),
{
    if results.len() == 0 {
        Seq::empty()
    } else {
        spec_successes(results.drop_last()) + match results.last() {
            Ok(q) => seq![q@],
            Err(_) => Seq::empty(),
        }
    }
}

/// Keeps the readings of the accounts that succeeded, in order; failed
/// accounts are skipped, never aborting the batch.
pub fn collect_successes(results: &Vec<Result<QuotaData, QuonitorError>>) -> (r: Vec<QuotaData>)
    ensures
        r@.map_values(|q: QuotaData| q@) == spec_successes(results@),
{
    let ghost full = results@;
    let n = results.len();
    let mut out: Vec<QuotaData> = Vec::new();
    let mut i: usize = 0;
    while i < n
        invariant
            i <= n,
            n == results@.len(),
            out@.map_values(|q: QuotaData| q@) == spec_successes(results@.subrange(0, i as int)),
        decreases n - i,
    {
        match &results[i] {
            Ok(q) => {
                let copied = q.clone();
                out.push(copied);
            },
            Err(_) => {
            },
        }
        proof {
            assert(results@.subrange(0, i + 1).drop_last() =~= results@.subrange(0, i as int));
            assert(results@.subrange(0, i + 1).last() == results@[i as int]);
            assert(out@.map_values(|q: QuotaData| q@) =~= spec_successes(
                results@.subrange(0, i + 1),
            ));
        }
        i = i + 1;
    }
    proof {
        assert(results@.subrange(0, n as int) =~= results@);
    }
    out
}

/// A sequence contains what either of its halves contains.
proof fn lemma_contains_append<T>(s1: Seq<T>, s2: Seq<T>, x: T)
    requires
        s1.contains(x) || s2.contains(x),
    ensures
        (s1 + s2).contains(x),
{
    if s1.contains(x) {
        let j = choose|j: int| 0 <= j < s1.len() && s1[j] == x;
        assert((s1 + s2)[j] == x);
    } else {
        let j = choose|j: int| 0 <= j < s2.len() && s2[j] == x;
        assert((s1 + s2)[s1.len() + j] == x);
    }
}

/// Law: per-account failure isolation — an account that fetched
/// successfully appears in the cycle's results no matter how many other
/// accounts failed.
pub proof fn lemma_failure_isolation(
    results: Seq<Result<QuotaData, QuonitorError>>,
    i: int,
    q: QuotaData,
)
    requires
        0 <= i < results.len(),
        results[i] == Ok::<QuotaData, QuonitorError>(q),
    ensures
        spec_successes(results).contains(q@),
    decreases results.len(),
{
    if i == results.len() - 1 {
        assert(seq![q@][0] == q@);
        assert(seq![q@].contains(q@));
        lemma_contains_append(spec_successes(results.drop_last()), seq![q@], q@);
    } else {
        assert(results.drop_last()[i] == results[i]);
        lemma_failure_isolation(results.drop_last(), i, q);
        match results.last() {
            Ok(p) => {
                lemma_contains_append(spec_successes(results.drop_last()), seq![p@], q@);
            },
            Err(_) => {
                lemma_contains_append(
                    spec_successes(results.drop_last()),
                    Seq::<QuotaDataView>::empty(),
                    q@,
                );
            },
        }
    }
}

} // verus!
