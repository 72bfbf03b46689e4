//! The provider registry and the provider-side data shapes.
//!
//! The set of supported providers is closed and known at build time, so a
//! provider is a tagged variant behind an immutable lookup keyed by its
//! identifier string. Fetching itself talks HTTP and lives outside the
//! library; everything that can be decided from plain values — which
//! provider an identifier names, which credential field a provider needs,
//! what a usage reading costs, and how raw usage points are normalized —
//! is decided and proved here.

use vstd::prelude::*;

use crate::error::QuonitorError;
use crate::models::{Credentials, view_opt_string};

verus! {

/// One per-model slice of a quota reading. Costs are micro-dollars.
pub struct ModelData {
    pub model_name: String,
    pub tokens_input: i64,
    pub tokens_output: i64,
    pub cost_micro_usd: i64,
    pub request_count: i64,
}

/// The mathematical value of a [`ModelData`].
#[verifier::ext_equal]
pub ghost struct ModelDataView {
    pub model_name: Seq<char>,
    pub tokens_input: int,
    pub tokens_output: int,
    pub cost_micro_usd: int,
    pub request_count: int,
}

impl View for ModelData {
    type V = ModelDataView;

    open spec fn view(&self) -> ModelDataView {
        ModelDataView {
            model_name: self.model_name@,
            tokens_input: self.tokens_input as int,
            tokens_output: self.tokens_output as int,
            cost_micro_usd: self.cost_micro_usd as int,
            request_count: self.request_count as int,
        }
    }
}

impl Clone for ModelData {
    fn clone(&self) -> (r: Self)
        ensures
            r == *self,
    {
        Self {
            model_name: self.model_name.clone(),
            tokens_input: self.tokens_input,
            tokens_output: self.tokens_output,
            cost_micro_usd: self.cost_micro_usd,
            request_count: self.request_count,
        }
    }
}

/// The optional integer of an optional `i64`, as unbounded math.
pub open spec fn view_opt_i64(o: Option<i64>) -> Option<int> {
    match o {
        Some(v) => Some(v as int),
        None => None,
    }
}

/// One quota reading for one account, as a provider reports it. The
/// account identifier is empty when a provider hands the reading back and
/// is stamped by the aggregator before the reading is used downstream.
pub struct QuotaData {
    pub account_id: String,
    pub timestamp: i64,
    pub tokens_input: Option<i64>,
    pub tokens_output: Option<i64>,
    pub cost_micro_usd: Option<i64>,
    pub quota_limit: Option<i64>,
    pub quota_remaining: Option<i64>,
    pub model_breakdown: Vec<ModelData>,
    pub metadata: Option<String>,
}

/// The mathematical value of a [`QuotaData`].
#[verifier::ext_equal]
pub ghost struct QuotaDataView {
    pub account_id: Seq<char>,
    pub timestamp: int,
    pub tokens_input: Option<int>,
    pub tokens_output: Option<int>,
    pub cost_micro_usd: Option<int>,
    pub quota_limit: Option<int>,
    pub quota_remaining: Option<int>,
    pub model_breakdown: Seq<ModelDataView>,
    pub metadata: Option<Seq<char>>,
}

impl View for QuotaData {
    type V = QuotaDataView;

    open spec fn view(&self) -> QuotaDataView {
        QuotaDataView {
            account_id: self.account_id@,
            timestamp: self.timestamp as int,
            tokens_input: view_opt_i64(self.tokens_input),
            tokens_output: view_opt_i64(self.tokens_output),
            cost_micro_usd: view_opt_i64(self.cost_micro_usd),
            quota_limit: view_opt_i64(self.quota_limit),
            quota_remaining: view_opt_i64(self.quota_remaining),
            model_breakdown: self.model_breakdown@.map_values(|m: ModelData| m@),
            metadata: view_opt_string(self.metadata),
        }
    }
}

impl Clone for QuotaData {
    fn clone(&self) -> (r: Self)
        ensures
            r@ == self@,
    {
        let breakdown = self.model_breakdown.clone();
        proof {
            assert forall|i: int| 0 <= i < self.model_breakdown@.len() implies breakdown@[i]
                == self.model_breakdown@[i] by {
                assert(cloned::<ModelData>(self.model_breakdown@[i], breakdown@[i]));
            }
        }
        let r = Self {
            account_id: self.account_id.clone(),
            timestamp: self.timestamp,
            tokens_input: self.tokens_input,
            tokens_output: self.tokens_output,
            cost_micro_usd: self.cost_micro_usd,
            quota_limit: self.quota_limit,
            quota_remaining: self.quota_remaining,
            model_breakdown: breakdown,
            metadata: match &self.metadata {
                Some(s) => Some(s.clone()),
                None => None,
            },
        };
        proof {
            assert(r.model_breakdown@.map_values(|m: ModelData| m@) =~= self.model_breakdown@
                .map_values(|m: ModelData| m@));
            assert(r@ =~= self@);
        }
        r
    }
}

/// Whether two strings hold the same characters.
pub fn str_eq_str(a: &str, b: &str) -> (r: bool)
    ensures
        r == (a@ == b@),
{
    let alen = a.unicode_len();
    let blen = b.unicode_len();
    if alen != blen {
        return false;
    }
    let mut i: usize = 0;
    while i < alen
        invariant
            i <= alen,
            alen == a@.len(),
            blen == b@.len(),
            alen == blen,
            forall|j: int| 0 <= j < i ==> a@[j] == b@[j],
        decreases alen - i,
    {
        if a.get_char(i) != b.get_char(i) {
            return false;
        }
        i = i + 1;
    }
    proof {
        assert(a@ =~= b@);
    }
    true
}

/// Whether `needle` occurs in `hay` starting at position `start`.
fn match_at(hay: &str, needle: &str, start: usize) -> (r: bool)
    requires
        start + needle@.len() <= hay@.len(),
    ensures
        r == (hay@.subrange(start as int, start + needle@.len()) == needle@),
{
    let nlen = needle.unicode_len();
    let hlen = hay.unicode_len();
    let ghost sub = hay@.subrange(start as int, start + needle@.len());
    let mut k: usize = 0;
    while k < nlen
        invariant
            k <= nlen,
            nlen == needle@.len(),
            hlen == hay@.len(),
            start + nlen <= hlen,
            sub == hay@.subrange(start as int, start + needle@.len()),
            forall|j: int| 0 <= j < k ==> hay@[start + j] == needle@[j],
        decreases nlen - k,
    {
        if hay.get_char(start + k) != needle.get_char(k) {
            proof {
                assert(sub[k as int] == hay@[start + k]);
            }
            return false;
        }
        k = k + 1;
    }
    proof {
        assert(sub =~= needle@);
    }
    true
}

/// Whether `needle` occurs somewhere in `hay`, as `str::contains` decides
/// it on whole characters.
pub open spec fn spec_contains_seq(hay: Seq<char>, needle: Seq<char>) -> bool {
    exists|i: int|
        0 <= i && i + needle.len() <= hay.len() && #[trigger] hay.subrange(i, i + needle.len())
            == needle
}

/// Substring search: whether `needle` occurs anywhere in `hay`.
pub fn contains_substr(hay: &str, needle: &str) -> (r: bool)
    ensures
        r == spec_contains_seq(hay@, needle@),
{
    let hlen = hay.unicode_len();
    let nlen = needle.unicode_len();
    if nlen > hlen {
        return false;
    }
    if nlen == 0 {
        proof {
            assert(hay@.subrange(0, 0 + needle@.len() as int) =~= needle@);
        }
        return true;
    }
    let mut start: usize = 0;
    while start <= hlen - nlen
        invariant
            hlen == hay@.len(),
            nlen == needle@.len(),
            1 <= nlen <= hlen,
            start <= hlen - nlen + 1,
            forall|i: int|
                0 <= i < start ==> #[trigger] hay@.subrange(i, i + needle@.len()) != needle@,
        decreases hlen - nlen - start + 1,
    {
        if match_at(hay, needle, start) {
            return true;
        }
        start = start + 1;
    }
    false
}

/// The closed set of supported providers.
#[derive(Clone, Copy, PartialEq, Eq, Structural, Debug)]
pub enum ProviderKind {
    OpenAi,
    Anthropic,
    Google,
    GitHub,
}

/// Which provider an identifier string names, if any.
pub open spec fn spec_provider_of(id: Seq<char>) -> Option<ProviderKind> {
    if id == "openai"@ {
        Some(ProviderKind::OpenAi)
    } else if id == "anthropic"@ {
        Some(ProviderKind::Anthropic)
    } else if id == "google"@ {
        Some(ProviderKind::Google)
    } else if id == "github"@ {
        Some(ProviderKind::GitHub)
    } else {
        None
    }
}

impl ProviderKind {
    /// Whether this provider accepts OAuth-style credentials.
    pub open spec fn spec_supports_oauth(self) -> bool {
        match self {
            ProviderKind::OpenAi => false,
            ProviderKind::Anthropic => false,
            ProviderKind::Google => true,
            ProviderKind::GitHub => true,
        }
    }

    /// Whether this provider accepts OAuth-style credentials.
    pub fn supports_oauth(self) -> (r: bool)
        ensures
            r == self.spec_supports_oauth(),
    {
        match self {
            ProviderKind::Google => true,
            ProviderKind::GitHub => true,
            _ => false,
        }
    }

    /// The human-readable provider name, for diagnostics.
    pub open spec fn spec_provider_name(self) -> Seq<char> {
        match self {
            ProviderKind::OpenAi => "OpenAI"@,
            ProviderKind::Anthropic => "Anthropic"@,
            ProviderKind::Google => "Google"@,
            ProviderKind::GitHub => "GitHub Copilot"@,
        }
    }

    /// The human-readable provider name, for diagnostics.
    pub fn provider_name(self) -> (r: &'static str)
        ensures
            r@ == self.spec_provider_name(),
    {
        match self {
            ProviderKind::OpenAi => "OpenAI",
            ProviderKind::Anthropic => "Anthropic",
            ProviderKind::Google => "Google",
            ProviderKind::GitHub => "GitHub Copilot",
        }
    }
}

/// The immutable mapping from provider identifier to provider. The set of
/// providers is fixed at build time, so the registry carries no state; it
/// exists so that callers resolve identifiers through one place.
pub struct ProviderRegistry {}

impl ProviderRegistry {
    /// The registry of every supported provider.
    pub fn new() -> (r: Self) {
        Self {  }
    }

    /// Resolves a provider identifier to its provider, or `None` for an
    /// identifier that no provider claims.
    pub fn get(&self, provider: &str) -> (r: Option<ProviderKind>)
        ensures
            r == spec_provider_of(provider@),
    {
        if str_eq_str(provider, "openai") {
            Some(ProviderKind::OpenAi)
        } else if str_eq_str(provider, "anthropic") {
            Some(ProviderKind::Anthropic)
        } else if str_eq_str(provider, "google") {
            Some(ProviderKind::Google)
        } else if str_eq_str(provider, "github") {
            Some(ProviderKind::GitHub)
        } else {
            None
        }
    }

    /// Every supported provider identifier.
    pub fn list_providers(&self) -> (r: Vec<String>)
        ensures
            r@.len() == 4,
            r@[0]@ == "openai"@,
            r@[1]@ == "anthropic"@,
            r@[2]@ == "google"@,
            r@[3]@ == "github"@,
    {
        let mut v: Vec<String> = Vec::new();
        v.push(String::from_str("openai"));
        v.push(String::from_str("anthropic"));
        v.push(String::from_str("google"));
        v.push(String::from_str("github"));
        v
    }
}

/// The credential field a provider authenticates with: the API key for
/// OpenAI and Anthropic, the OAuth token for Google, and for GitHub the
/// OAuth token with the API key accepted in its place.
pub open spec fn spec_required_secret(kind: ProviderKind, c: crate::models::CredentialsView) -> Option<
    Seq<char>,
> {
    match kind {
        ProviderKind::OpenAi => c.api_key,
        ProviderKind::Anthropic => c.api_key,
        ProviderKind::Google => c.oauth_token,
        ProviderKind::GitHub => if c.oauth_token is Some {
            c.oauth_token
        } else {
            c.api_key
        },
    }
}

/// The diagnostic carried by the `Auth` error when the credential field a
/// provider needs is absent.
pub open spec fn spec_missing_credential_message(kind: ProviderKind) -> Seq<char> {
    match kind {
        ProviderKind::OpenAi => "OpenAI requires API key"@,
        ProviderKind::Anthropic => "Anthropic requires API key"@,
        ProviderKind::Google => "Google requires OAuth token"@,
        ProviderKind::GitHub => "GitHub requires OAuth token or PAT"@,
    }
}

/// Picks the secret a provider authenticates with out of a credential, or
/// reports exactly which credential field was missing.
pub fn credential_for(kind: ProviderKind, credentials: &Credentials) -> (r: Result<
    String,
    QuonitorError,
>)
    ensures
        r matches Ok(s) ==> spec_required_secret(kind, credentials@) == Some(s@),
        r is Err <==> spec_required_secret(kind, credentials@) is None,
        r matches Err(e) ==> e matches QuonitorError::Auth(m) && m@
            == spec_missing_credential_message(kind),
{
    let found: &Option<String> = match kind {
        ProviderKind::OpenAi => &credentials.api_key,
        ProviderKind::Anthropic => &credentials.api_key,
        ProviderKind::Google => &credentials.oauth_token,
        ProviderKind::GitHub => if credentials.oauth_token.is_some() {
            &credentials.oauth_token
        } else {
            &credentials.api_key
        },
    };
    match found {
        Some(secret) => Ok(secret.clone()),
        None => {
            let message = match kind {
                ProviderKind::OpenAi => "OpenAI requires API key",
                ProviderKind::Anthropic => "Anthropic requires API key",
                ProviderKind::Google => "Google requires OAuth token",
                ProviderKind::GitHub => "GitHub requires OAuth token or PAT",
            };
            Err(QuonitorError::Auth(String::from_str(message)))
        },
    }
}

/// A zeroed quota reading for a provider whose usage API cannot be read
/// yet: the credential was accepted upstream, and the metadata says why
/// the counts are all zero.
fn placeholder_quota(account_id: String, now: i64, metadata: &str) -> (r: QuotaData)
    ensures
        r@.account_id == account_id@,
        r@.timestamp == now as int,
        r@.tokens_input == Some(0int),
        r@.tokens_output == Some(0int),
        r@.cost_micro_usd == Some(0int),
        r@.quota_limit is None,
        r@.quota_remaining is None,
        r@.model_breakdown.len() == 0,
        r@.metadata matches Some(m) && m == metadata@,
{
    QuotaData {
        account_id,
        timestamp: now,
        tokens_input: Some(0),
        tokens_output: Some(0),
        cost_micro_usd: Some(0),
        quota_limit: None,
        quota_remaining: None,
        model_breakdown: Vec::new(),
        metadata: Some(String::from_str(metadata)),
    }
}

/// The reading Anthropic accounts report once their key was validated:
/// the usage API is not public, so the counts are a documented all-zero
/// placeholder, not a failure.
pub fn anthropic_placeholder_quota(now: i64) -> (r: QuotaData)
    ensures
        r@.account_id.len() == 0,
        r@.timestamp == now as int,
        r@.tokens_input == Some(0int),
        r@.tokens_output == Some(0int),
        r@.cost_micro_usd == Some(0int),
        r@.quota_limit is None,
        r@.quota_remaining is None,
        r@.model_breakdown.len() == 0,
        r@.metadata matches Some(m) && m == "Anthropic API does not support usage tracking yet"@,
{
    placeholder_quota(String::new(), now, "Anthropic API does not support usage tracking yet")
}

/// The reading GitHub accounts report once a token was found: Copilot
/// metrics are not wired up, so the counts are a documented placeholder.
pub fn github_placeholder_quota(now: i64) -> (r: QuotaData)
    ensures
        r@.account_id.len() == 0,
        r@.timestamp == now as int,
        r@.tokens_input == Some(0int),
        r@.tokens_output == Some(0int),
        r@.cost_micro_usd == Some(0int),
        r@.quota_limit is None,
        r@.quota_remaining is None,
        r@.model_breakdown.len() == 0,
        r@.metadata matches Some(m) && m == "GitHub provider not fully implemented yet"@,
{
    placeholder_quota(String::new(), now, "GitHub provider not fully implemented yet")
}

/// The reading Google accounts report once their token was accepted:
/// billing is not wired up, so the counts are a documented placeholder.
/// Like every provider reading, the account identifier comes back empty
/// for the aggregator to stamp.
pub fn google_placeholder_quota(now: i64) -> (r: QuotaData)
    ensures
        r@.account_id.len() == 0,
        r@.timestamp == now as int,
        r@.tokens_input == Some(0int),
        r@.tokens_output == Some(0int),
        r@.cost_micro_usd == Some(0int),
        r@.quota_limit is None,
        r@.quota_remaining is None,
        r@.model_breakdown.len() == 0,
        r@.metadata matches Some(m) && m == "Google Cloud tracking enabled"@,
{
    placeholder_quota(String::new(), now, "Google Cloud tracking enabled")
}

/// OpenAI prices in micro-dollars per million tokens, `(input, output)`,
/// chosen by the first matching model-name substring; unknown models fall
/// back to a documented default tier.
pub open spec fn spec_openai_prices(model: Seq<char>) -> (int, int) {
    if spec_contains_seq(model, "gpt-4o"@) {
        (2_500_000int, 10_000_000int)
    } else if spec_contains_seq(model, "gpt-4-turbo"@) {
        (10_000_000int, 30_000_000int)
    } else if spec_contains_seq(model, "gpt-4"@) {
        (30_000_000int, 60_000_000int)
    } else if spec_contains_seq(model, "gpt-3.5-turbo"@) {
        (500_000int, 1_500_000int)
    } else if spec_contains_seq(model, "o1-preview"@) {
        (15_000_000int, 60_000_000int)
    } else if spec_contains_seq(model, "o1-mini"@) {
        (3_000_000int, 12_000_000int)
    } else {
        (1_000_000int, 2_000_000int)
    }
}

/// Anthropic prices in micro-dollars per million tokens, `(input,
/// output)`; unknown models default to the sonnet tier.
pub open spec fn spec_anthropic_prices(model: Seq<char>) -> (int, int) {
    if spec_contains_seq(model, "opus"@) {
        (15_000_000int, 75_000_000int)
    } else if spec_contains_seq(model, "sonnet"@) {
        (3_000_000int, 15_000_000int)
    } else if spec_contains_seq(model, "haiku"@) {
        (250_000int, 1_250_000int)
    } else {
        (3_000_000int, 15_000_000int)
    }
}

/// What a usage slice costs in micro-dollars under a per-million-token
/// price pair, rounding each term down.
pub open spec fn spec_cost_micro(prices: (int, int), input_tokens: int, output_tokens: int) -> int {
    input_tokens * prices.0 / 1_000_000 + output_tokens * prices.1 / 1_000_000
}

/// The OpenAI prices of a model, `(input, output)` micro-dollars per
/// million tokens.
pub fn openai_prices(model: &str) -> (r: (i64, i64))
    ensures
        r.0 == spec_openai_prices(model@).0,
        r.1 == spec_openai_prices(model@).1,
{
    if contains_substr(model, "gpt-4o") {
        (2_500_000, 10_000_000)
    } else if contains_substr(model, "gpt-4-turbo") {
        (10_000_000, 30_000_000)
    } else if contains_substr(model, "gpt-4") {
        (30_000_000, 60_000_000)
    } else if contains_substr(model, "gpt-3.5-turbo") {
        (500_000, 1_500_000)
    } else if contains_substr(model, "o1-preview") {
        (15_000_000, 60_000_000)
    } else if contains_substr(model, "o1-mini") {
        (3_000_000, 12_000_000)
    } else {
        (1_000_000, 2_000_000)
    }
}

/// The Anthropic prices of a model, `(input, output)` micro-dollars per
/// million tokens.
pub fn anthropic_prices(model: &str) -> (r: (i64, i64))
    ensures
        r.0 == spec_anthropic_prices(model@).0,
        r.1 == spec_anthropic_prices(model@).1,
{
    if contains_substr(model, "opus") {
        (15_000_000, 75_000_000)
    } else if contains_substr(model, "sonnet") {
        (3_000_000, 15_000_000)
    } else if contains_substr(model, "haiku") {
        (250_000, 1_250_000)
    } else {
        (3_000_000, 15_000_000)
    }
}

/// The exact micro-dollar cost under a price pair, or `None` when the
/// mathematical value does not fit an `i64`.
fn cost_micro(prices: (i64, i64), input_tokens: u64, output_tokens: u64) -> (r: Option<i64>)
    requires
        0 < prices.0 <= 100_000_000,
        0 < prices.1 <= 100_000_000,
    ensures
        ({
            let c = spec_cost_micro(
                (prices.0 as int, prices.1 as int),
                input_tokens as int,
                output_tokens as int,
            );
            if c <= i64::MAX {
                r == Some(c as i64)
            } else {
                r is None
            }
        }),
{
    proof {
        assert((input_tokens as int) * (prices.0 as int) <= (u64::MAX as int) * 100_000_000int)
            by (nonlinear_arith)
            requires
                input_tokens <= u64::MAX,
                0 < prices.0 <= 100_000_000,
        ;
        assert((output_tokens as int) * (prices.1 as int) <= (u64::MAX as int) * 100_000_000int)
            by (nonlinear_arith)
            requires
                output_tokens <= u64::MAX,
                0 < prices.1 <= 100_000_000,
        ;
        assert((input_tokens as int) * (prices.0 as int) >= 0) by (nonlinear_arith)
            requires
                input_tokens >= 0,
                prices.0 > 0,
        ;
        assert((output_tokens as int) * (prices.1 as int) >= 0) by (nonlinear_arith)
            requires
                output_tokens >= 0,
                prices.1 > 0,
        ;
    }
    let input_cost: u128 = (input_tokens as u128) * (prices.0 as u128) / 1_000_000;
    let output_cost: u128 = (output_tokens as u128) * (prices.1 as u128) / 1_000_000;
    let total: u128 = input_cost + output_cost;
    if total <= i64::MAX as u128 {
        Some(total as i64)
    } else {
        None
    }
}

/// The cost of an OpenAI usage slice in micro-dollars, priced per model
/// substring; `None` when the exact value does not fit an `i64`.
pub fn calculate_openai_cost(model: &str, input_tokens: u64, output_tokens: u64) -> (r: Option<
    i64,
>)
    ensures
        ({
            let c = spec_cost_micro(
                spec_openai_prices(model@),
                input_tokens as int,
                output_tokens as int,
            );
            if c <= i64::MAX {
                r == Some(c as i64)
            } else {
                r is None
            }
        }),
{
    cost_micro(openai_prices(model), input_tokens, output_tokens)
}

/// The cost of an Anthropic usage slice in micro-dollars, priced per model
/// substring; `None` when the exact value does not fit an `i64`.
pub fn calculate_anthropic_cost(model: &str, input_tokens: u64, output_tokens: u64) -> (r: Option<
    i64,
>)
    ensures
        ({
            let c = spec_cost_micro(
                spec_anthropic_prices(model@),
                input_tokens as int,
                output_tokens as int,
            );
            if c <= i64::MAX {
                r == Some(c as i64)
            } else {
                r is None
            }
        }),
{
    cost_micro(anthropic_prices(model), input_tokens, output_tokens)
}

/// The OAuth client configuration the Google provider's authorization
/// flow is driven with. The flow itself — building the consent URL and
/// exchanging the authorization code — talks to the OAuth endpoints and
/// lives in the surrounding application.
pub struct GoogleAuthConfig {
    pub client_id: String,
    pub client_secret: String,
    pub redirect_uri: String,
}

/// One raw usage bucket as the OpenAI usage API reports it, after the
/// surrounding application has decoded the wire payload: an optional
/// model name and this bucket's token and request counts.
pub struct UsagePoint {
    pub model: Option<String>,
    pub requests: u64,
    pub input_tokens: u64,
    pub output_tokens: u64,
}

/// The mathematical value of a [`UsagePoint`].
#[verifier::ext_equal]
pub ghost struct UsagePointView {
    pub model: Option<Seq<char>>,
    pub requests: int,
    pub input_tokens: int,
    pub output_tokens: int,
}

impl View for UsagePoint {
    type V = UsagePointView;

    open spec fn view(&self) -> UsagePointView {
        UsagePointView {
            model: view_opt_string(self.model),
            requests: self.requests as int,
            input_tokens: self.input_tokens as int,
            output_tokens: self.output_tokens as int,
        }
    }
}

/// The model a usage bucket is grouped under: its model name, or
/// `"unknown"` when the API reported none.
pub open spec fn spec_point_key(p: UsagePointView) -> Seq<char> {
    match p.model {
        Some(m) => m,
        None => "unknown"@,
    }
}

/// The input tokens of every bucket grouped under `key`, summed.
pub open spec fn spec_sum_input(ps: Seq<UsagePointView>, key: Seq<char>) -> int
    decreases ps.len(),
{
    if ps.len() == 0 {
        0
    } else {
        spec_sum_input(ps.drop_last(), key) + if spec_point_key(ps.last()) == key {
            ps.last().input_tokens
        } else {
            0
        }
    }
}

/// The output tokens of every bucket grouped under `key`, summed.
pub open spec fn spec_sum_output(ps: Seq<UsagePointView>, key: Seq<char>) -> int
    decreases ps.len(),
{
    if ps.len() == 0 {
        0
    } else {
        spec_sum_output(ps.drop_last(), key) + if spec_point_key(ps.last()) == key {
            ps.last().output_tokens
        } else {
            0
        }
    }
}

/// The requests of every bucket grouped under `key`, summed.
pub open spec fn spec_sum_requests(ps: Seq<UsagePointView>, key: Seq<char>) -> int
    decreases ps.len(),
{
    if ps.len() == 0 {
        0
    } else {
        spec_sum_requests(ps.drop_last(), key) + if spec_point_key(ps.last()) == key {
            ps.last().requests
        } else {
            0
        }
    }
}

/// The input tokens of every bucket, summed.
pub open spec fn spec_total_input(ps: Seq<UsagePointView>) -> int
    decreases ps.len(),
{
    if ps.len() == 0 {
        0
    } else {
        spec_total_input(ps.drop_last()) + ps.last().input_tokens
    }
}

/// The output tokens of every bucket, summed.
pub open spec fn spec_total_output(ps: Seq<UsagePointView>) -> int
    decreases ps.len(),
{
    if ps.len() == 0 {
        0
    } else {
        spec_total_output(ps.drop_last()) + ps.last().output_tokens
    }
}

/// The distinct group keys of the buckets, in order of first occurrence.
pub open spec fn spec_keys_in_order(ps: Seq<UsagePointView>) -> Seq<Seq<char>>
    decreases ps.len(),
{
    if ps.len() == 0 {
        Seq::empty()
    } else {
        let prev = spec_keys_in_order(ps.drop_last());
        if prev.contains(spec_point_key(ps.last())) {
            prev
        } else {
            prev.push(spec_point_key(ps.last()))
        }
    }
}

/// The group keys never repeat.
proof fn lemma_keys_no_duplicates(ps: Seq<UsagePointView>)
    ensures
        spec_keys_in_order(ps).no_duplicates(),
    decreases ps.len(),
{
    if ps.len() > 0 {
        lemma_keys_no_duplicates(ps.drop_last());
    }
}

/// A key that no bucket carries sums to zero.
proof fn lemma_sums_of_absent_key(ps: Seq<UsagePointView>, k: Seq<char>)
    requires
        !spec_keys_in_order(ps).contains(k),
    ensures
        spec_sum_input(ps, k) == 0,
        spec_sum_output(ps, k) == 0,
        spec_sum_requests(ps, k) == 0,
    decreases ps.len(),
{
    if ps.len() > 0 {
        let prev = spec_keys_in_order(ps.drop_last());
        let keys = spec_keys_in_order(ps);
        assert forall|t: int| 0 <= t < prev.len() implies prev[t] != k by {
            assert(keys[t] == prev[t]);
        }
        if spec_point_key(ps.last()) == k {
            if prev.contains(k) {
                assert(false);
            } else {
                assert(keys.last() == k);
            }
        }
        lemma_sums_of_absent_key(ps.drop_last(), k);
    }
}

/// The total cost of the groups named by `keys`: each group's summed
/// tokens priced by its model name, added up.
pub open spec fn spec_cost_of_keys(ps: Seq<UsagePointView>, keys: Seq<Seq<char>>) -> int
    decreases keys.len(),
{
    if keys.len() == 0 {
        0
    } else {
        spec_cost_of_keys(ps, keys.drop_last()) + spec_cost_micro(
            spec_openai_prices(keys.last()),
            spec_sum_input(ps, keys.last()),
            spec_sum_output(ps, keys.last()),
        )
    }
}

/// Whether every per-model sum, per-model cost, total and total cost of
/// the grouped buckets fits an `i64`.
pub open spec fn spec_openai_fits(ps: Seq<UsagePointView>) -> bool {
    let keys = spec_keys_in_order(ps);
    &&& forall|j: int|
        0 <= j < keys.len() ==> {
            let k = #[trigger] keys[j];
            &&& spec_sum_input(ps, k) <= i64::MAX
            &&& spec_sum_output(ps, k) <= i64::MAX
            &&& spec_sum_requests(ps, k) <= i64::MAX
            &&& spec_cost_micro(spec_openai_prices(k), spec_sum_input(ps, k), spec_sum_output(ps, k))
                <= i64::MAX
        }
    &&& spec_total_input(ps) <= i64::MAX
    &&& spec_total_output(ps) <= i64::MAX
    &&& spec_cost_of_keys(ps, keys) <= i64::MAX
}

/// One group being accumulated: a model name and its running sums.
struct Group {
    name: String,
    input: u128,
    output: u128,
    requests: u128,
}

/// The index of the group named `key`, if one exists.
fn find_group(groups: &Vec<Group>, key: &str) -> (r: Option<usize>)
    ensures
        match r {
            Some(j) => j < groups@.len() && groups@[j as int].name@ == key@,
            None => forall|j: int|
                0 <= j < groups@.len() ==> (#[trigger] groups@[j]).name@ != key@,
        },
{
    let n = groups.len();
    let mut j: usize = 0;
    while j < n
        invariant
            j <= n,
            n == groups@.len(),
            forall|t: int| 0 <= t < j ==> (#[trigger] groups@[t]).name@ != key@,
        decreases n - j,
    {
        if str_eq_str(groups[j].name.as_str(), key) {
            return Some(j);
        }
        j = j + 1;
    }
    None
}

/// Normalizes the OpenAI usage buckets of one day into a quota reading:
/// the buckets are grouped by model name (`"unknown"` when absent, in
/// order of first occurrence), each group's tokens and requests are
/// summed and priced, and the account-level totals are summed over every
/// bucket. Returns `None` exactly when some sum, cost or total exceeds
/// the `i64` range. The account identifier comes back empty, for the
/// aggregator to stamp.
pub fn aggregate_openai_usage(points: &Vec<UsagePoint>, now: i64) -> (r: Option<QuotaData>)
    ensures
        ({
            let ps = points@.map_values(|p: UsagePoint| p@);
            let keys = spec_keys_in_order(ps);
            &&& r matches Some(q) ==> {
                &&& q@.account_id.len() == 0
                &&& q@.timestamp == now as int
                &&& q@.quota_limit is None
                &&& q@.quota_remaining is None
                &&& q@.metadata is None
                &&& q@.tokens_input == Some(spec_total_input(ps))
                &&& q@.tokens_output == Some(spec_total_output(ps))
                &&& q@.cost_micro_usd == Some(spec_cost_of_keys(ps, keys))
                &&& q@.model_breakdown.len() == keys.len()
                &&& forall|j: int|
                    0 <= j < keys.len() ==> {
                        let m = #[trigger] q@.model_breakdown[j];
                        &&& m.model_name == keys[j]
                        &&& m.tokens_input == spec_sum_input(ps, keys[j])
                        &&& m.tokens_output == spec_sum_output(ps, keys[j])
                        &&& m.request_count == spec_sum_requests(ps, keys[j])
                        &&& m.cost_micro_usd == spec_cost_micro(
                            spec_openai_prices(keys[j]),
                            spec_sum_input(ps, keys[j]),
                            spec_sum_output(ps, keys[j]),
                        )
                    }
            }
            &&& r is None <==> !spec_openai_fits(ps)
        }),
{
    let ghost ps = points@.map_values(|p: UsagePoint| p@);
    let n = points.len();

    let mut groups: Vec<Group> = Vec::new();
    let mut i: usize = 0;
    while i < n
        invariant
            i <= n,
            n == points@.len(),
            ps == points@.map_values(|p: UsagePoint| p@),
            groups@.map_values(|g: Group| g.name@) =~= spec_keys_in_order(ps.subrange(0, i as int)),
            forall|a: int, b: int|
                0 <= a < b < groups@.len() ==> (#[trigger] groups@[a]).name@ != (
                #[trigger] groups@[b]).name@,
            forall|j: int|
                0 <= j < groups@.len() ==> {
                    let g = #[trigger] groups@[j];
                    &&& g.input as int == spec_sum_input(ps.subrange(0, i as int), g.name@)
                    &&& g.output as int == spec_sum_output(ps.subrange(0, i as int), g.name@)
                    &&& g.requests as int == spec_sum_requests(ps.subrange(0, i as int), g.name@)
                    &&& g.input as int <= (i as int) * (u64::MAX as int)
                    &&& g.output as int <= (i as int) * (u64::MAX as int)
                    &&& g.requests as int <= (i as int) * (u64::MAX as int)
                },
        decreases n - i,
    {
        let p = &points[i];
        let key: String = match &p.model {
            Some(m) => m.clone(),
            None => String::from_str("unknown"),
        };
        proof {
            assert(ps[i as int] == points@[i as int]@);
            assert(key@ == spec_point_key(ps[i as int]));
            assert(ps.subrange(0, i + 1).drop_last() =~= ps.subrange(0, i as int));
            assert(ps.subrange(0, i + 1).last() == ps[i as int]);
        }
        let found = find_group(&groups, key.as_str());
        match found {
            Some(j) => {
                proof {
                    let names = groups@.map_values(|g: Group| g.name@);
                    assert(names[j as int] == key@);
                    assert(names.contains(key@));
                }
                let updated = Group {
                    name: key,
                    input: groups[j].input + (p.input_tokens as u128),
                    output: groups[j].output + (p.output_tokens as u128),
                    requests: groups[j].requests + (p.requests as u128),
                };
                groups[j] = updated;
                proof {
                    assert(groups@.map_values(|g: Group| g.name@) =~= spec_keys_in_order(
                        ps.subrange(0, i + 1),
                    ));
                    let prefix = ps.subrange(0, i as int);
                    let prefix1 = ps.subrange(0, i + 1);
                    assert forall|jj: int|
                        0 <= jj < groups@.len() implies {
                        let g = #[trigger] groups@[jj];
                        &&& g.input as int == spec_sum_input(prefix1, g.name@)
                        &&& g.output as int == spec_sum_output(prefix1, g.name@)
                        &&& g.requests as int == spec_sum_requests(prefix1, g.name@)
                    } by {
                        if jj != j {
                            assert(groups@[jj].name@ != groups@[j as int].name@);
                        }
                    }
                }
            },
            None => {
                proof {
                    let names = groups@.map_values(|g: Group| g.name@);
                    assert forall|t: int| 0 <= t < names.len() implies names[t] != key@ by {
                        assert(names[t] == groups@[t].name@);
                    }
                    if names.contains(key@) {
                        let t = choose|t: int| 0 <= t < names.len() && names[t] == key@;
                        assert(false);
                    }
                }
                let fresh = Group {
                    name: key,
                    input: p.input_tokens as u128,
                    output: p.output_tokens as u128,
                    requests: p.requests as u128,
                };
                groups.push(fresh);
                proof {
                    assert(groups@.map_values(|g: Group| g.name@) =~= spec_keys_in_order(
                        ps.subrange(0, i + 1),
                    ));
                    let prefix = ps.subrange(0, i as int);
                    let prefix1 = ps.subrange(0, i + 1);
                    lemma_sums_of_absent_key(prefix, key@);
                    let last = (groups@.len() - 1) as int;
                    assert forall|jj: int|
                        0 <= jj < groups@.len() implies {
                        let g = #[trigger] groups@[jj];
                        &&& g.input as int == spec_sum_input(prefix1, g.name@)
                        &&& g.output as int == spec_sum_output(prefix1, g.name@)
                        &&& g.requests as int == spec_sum_requests(prefix1, g.name@)
                    } by {
                        if jj != last {
                            assert(groups@[jj].name@ != key@);
                        }
                    }
                }
            },
        }
        i = i + 1;
    }
    proof {
        assert(ps.subrange(0, n as int) =~= ps);
        lemma_keys_no_duplicates(ps);
    }
    let ghost keys = spec_keys_in_order(ps);

    let mut breakdown: Vec<ModelData> = Vec::new();
    let mut cost_total: u128 = 0;
    let m = groups.len();
    let mut k: usize = 0;
    while k < m
        invariant
            k <= m,
            m == groups@.len(),
            ps == points@.map_values(|p: UsagePoint| p@),
            keys == spec_keys_in_order(ps),
            groups@.map_values(|g: Group| g.name@) =~= keys,
            forall|j: int|
                0 <= j < groups@.len() ==> {
                    let g = #[trigger] groups@[j];
                    &&& g.input as int == spec_sum_input(ps, g.name@)
                    &&& g.output as int == spec_sum_output(ps, g.name@)
                    &&& g.requests as int == spec_sum_requests(ps, g.name@)
                },
            breakdown@.len() == k,
            forall|j: int|
                0 <= j < k ==> {
                    let row = #[trigger] breakdown@[j];
                    &&& row@.model_name == keys[j]
                    &&& row@.tokens_input == spec_sum_input(ps, keys[j])
                    &&& row@.tokens_output == spec_sum_output(ps, keys[j])
                    &&& row@.request_count == spec_sum_requests(ps, keys[j])
                    &&& row@.cost_micro_usd == spec_cost_micro(
                        spec_openai_prices(keys[j]),
                        spec_sum_input(ps, keys[j]),
                        spec_sum_output(ps, keys[j]),
                    )
                },
            forall|j: int|
                0 <= j < k ==> {
                    let key = #[trigger] keys[j];
                    &&& spec_sum_input(ps, key) <= i64::MAX
                    &&& spec_sum_output(ps, key) <= i64::MAX
                    &&& spec_sum_requests(ps, key) <= i64::MAX
                    &&& spec_cost_micro(
                        spec_openai_prices(key),
                        spec_sum_input(ps, key),
                        spec_sum_output(ps, key),
                    ) <= i64::MAX
                },
            cost_total as int == spec_cost_of_keys(ps, keys.subrange(0, k as int)),
            cost_total as int <= (k as int) * (i64::MAX as int),
        decreases m - k,
    {
        proof {
            assert(groups@.map_values(|g: Group| g.name@)[k as int] == groups@[k as int].name@);
        }
        let g = &groups[k];
        if g.input > i64::MAX as u128 || g.output > i64::MAX as u128 || g.requests > i64::MAX
            as u128 {
            proof {
                assert(keys[k as int] == groups@[k as int].name@);
                assert(!spec_openai_fits(ps));
            }
            return None;
        }
        let cost = match calculate_openai_cost(g.name.as_str(), g.input as u64, g.output as u64) {
            Some(c) => c,
            None => {
                proof {
                    assert(keys[k as int] == groups@[k as int].name@);
                    assert(!spec_openai_fits(ps));
                }
                return None;
            },
        };
        proof {
            assert(keys.subrange(0, k + 1).drop_last() =~= keys.subrange(0, k as int));
            assert(keys.subrange(0, k + 1).last() == keys[k as int]);
        }
        breakdown.push(
            ModelData {
                model_name: g.name.clone(),
                tokens_input: g.input as i64,
                tokens_output: g.output as i64,
                cost_micro_usd: cost,
                request_count: g.requests as i64,
            },
        );
        cost_total = cost_total + (cost as u128);
        k = k + 1;
    }
    proof {
        assert(keys.subrange(0, m as int) =~= keys);
    }
    if cost_total > i64::MAX as u128 {
        proof {
            assert(!spec_openai_fits(ps));
        }
        return None;
    }

    let mut total_input: u128 = 0;
    let mut total_output: u128 = 0;
    let mut t: usize = 0;
    while t < n
        invariant
            t <= n,
            n == points@.len(),
            ps == points@.map_values(|p: UsagePoint| p@),
            total_input as int == spec_total_input(ps.subrange(0, t as int)),
            total_output as int == spec_total_output(ps.subrange(0, t as int)),
            total_input as int <= (t as int) * (u64::MAX as int),
            total_output as int <= (t as int) * (u64::MAX as int),
        decreases n - t,
    {
        proof {
            assert(ps[t as int] == points@[t as int]@);
            assert(ps.subrange(0, t + 1).drop_last() =~= ps.subrange(0, t as int));
            assert(ps.subrange(0, t + 1).last() == ps[t as int]);
        }
        let p = &points[t];
        total_input = total_input + (p.input_tokens as u128);
        total_output = total_output + (p.output_tokens as u128);
        t = t + 1;
    }
    proof {
        assert(ps.subrange(0, n as int) =~= ps);
    }
    if total_input > i64::MAX as u128 || total_output > i64::MAX as u128 {
        proof {
            assert(!spec_openai_fits(ps));
        }
        return None;
    }

    let q = QuotaData {
        account_id: String::new(),
        timestamp: now,
        tokens_input: Some(total_input as i64),
        tokens_output: Some(total_output as i64),
        cost_micro_usd: Some(cost_total as i64),
        quota_limit: None,
        quota_remaining: None,
        model_breakdown: breakdown,
        metadata: None,
    };
    proof {
        assert(q@.model_breakdown =~= breakdown@.map_values(|md: ModelData| md@));
        assert(spec_openai_fits(ps));
    }
    Some(q)
}

} // verus!
