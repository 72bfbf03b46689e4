//! The threshold / debounce engine over usage percentages.
//!
//! Percentages are carried in tenths of a percent, so every comparison
//! against a tier boundary is exact integer arithmetic: a reading with
//! `limit` and `remaining` stands at `(limit - remaining) * 1000 / limit`
//! tenths, and the 75% / 90% / 95% tiers fire at 750 / 900 / 950.
//!
//! A check decides; it does not read settings rows or deliver anything.
//! The surrounding application loads the three settings and the prior
//! per-account state, hands them in, and carries out the outcome: send
//! the fired tier (if any) and persist the updated state.

use vstd::prelude::*;

use crate::clock;
use crate::models::NotificationState;
use crate::models::view_opt_string;
use crate::parse::spec_hour_of;
use crate::parse::parse_hour;
use crate::providers::QuotaData;
use crate::providers::QuotaDataView;
use crate::providers::str_eq_str;

verus! {

/// The three ascending severity tiers, named by the percentage boundary
/// each one fires at.
#[derive(Clone, Copy, PartialEq, Eq, Structural, Debug)]
pub enum Tier {
    Warning75,
    Caution90,
    Critical95,
}

/// Whether a tier whose last notification was at `last` may fire again
/// when "one day ago" is `threshold`: never notified, or notified before
/// the rolling window began.
pub open spec fn spec_should_notify(last: Option<i64>, threshold: int) -> bool {
    match last {
        Some(t) => (t as int) < threshold,
        None => true,
    }
}

/// Whether a tier last notified at `last_notified` may fire again once
/// `threshold` (the start of the rolling window) has been reached.
pub fn should_notify_threshold(last_notified: &Option<i64>, threshold: i64) -> (r: bool)
    ensures
        r == spec_should_notify(*last_notified, threshold as int),
{
    match last_notified {
        Some(time) => *time < threshold,
        None => true,
    }
}

/// `x` clamped into the `i64` range.
pub open spec fn spec_clamp_i64(x: int) -> int {
    if x > i64::MAX {
        i64::MAX as int
    } else if x < i64::MIN {
        i64::MIN as int
    } else {
        x
    }
}

/// Usage in tenths of a percent of a reading with `limit > 0`: the used
/// share `(limit - remaining) * 1000 / limit`, rounded toward zero.
pub open spec fn spec_usage_tenths(limit: int, remaining: int) -> int
    recommends
        limit > 0,
{
    if remaining <= limit {
        ((limit - remaining) * 1000) / limit
    } else {
        -(((remaining - limit) * 1000) / limit)
    }
}

/// What percentage a quota reading stands at, in tenths of a percent and
/// clamped into `i64`: defined exactly when both `limit` and `remaining`
/// are present and `limit` is positive.
pub open spec fn spec_usage_percentage_tenths(q: QuotaDataView) -> Option<int> {
    match (q.quota_limit, q.quota_remaining) {
        (Some(l), Some(r)) => if l > 0 {
            Some(spec_clamp_i64(spec_usage_tenths(l, r)))
        } else {
            None
        },
        _ => None,
    }
}

/// Computes the usage percentage of a reading in tenths of a percent, or
/// `None` when no determination is possible (a limit or remaining count is
/// absent, or the limit is not positive).
pub fn calculate_usage_percentage(quota: &QuotaData) -> (r: Option<i64>)
    ensures
        match r {
            Some(v) => spec_usage_percentage_tenths(quota@) == Some(v as int),
            None => spec_usage_percentage_tenths(quota@) is None,
        },
{
    let (limit, remaining) = match (quota.quota_limit, quota.quota_remaining) {
        (Some(l), Some(r)) => (l, r),
        _ => {
            return None;
        },
    };
    if limit <= 0 {
        return None;
    }
    let limit_wide: u128 = limit as u128;
    if remaining <= limit {
        let used: u128 = ((limit as i128) - (remaining as i128)) as u128;
        let tenths: u128 = used * 1000 / limit_wide;
        if tenths > i64::MAX as u128 {
            Some(i64::MAX)
        } else {
            Some(tenths as i64)
        }
    } else {
        let over: u128 = ((remaining as i128) - (limit as i128)) as u128;
        let tenths: u128 = over * 1000 / limit_wide;
        if tenths >= 9_223_372_036_854_775_808u128 {
            Some(i64::MIN)
        } else {
            Some(-(tenths as i64))
        }
    }
}

/// Which tier a check fires: evaluated from the highest tier down, a tier
/// fires when the percentage meets its boundary and its last notification
/// lies outside the rolling window that began at `day_ago`; at most one
/// tier fires, and a higher qualifying tier shadows every lower one.
pub open spec fn spec_evaluate_tiers(
    state: NotificationState,
    tenths: int,
    day_ago: int,
) -> Option<Tier> {
    if tenths >= 950 && spec_should_notify(state.last_95_percent_notified, day_ago) {
        Some(Tier::Critical95)
    } else if tenths >= 900 && spec_should_notify(state.last_90_percent_notified, day_ago) {
        Some(Tier::Caution90)
    } else if tenths >= 750 && spec_should_notify(state.last_75_percent_notified, day_ago) {
        Some(Tier::Warning75)
    } else {
        None
    }
}

/// Evaluates the tiers from highest to lowest and returns the one that
/// fires, if any.
pub fn evaluate_tiers(state: &NotificationState, percentage_tenths: i64, one_day_ago: i64) -> (r:
    Option<Tier>)
    ensures
        r == spec_evaluate_tiers(*state, percentage_tenths as int, one_day_ago as int),
{
    if percentage_tenths >= 950 && should_notify_threshold(
        &state.last_95_percent_notified,
        one_day_ago,
    ) {
        Some(Tier::Critical95)
    } else if percentage_tenths >= 900 && should_notify_threshold(
        &state.last_90_percent_notified,
        one_day_ago,
    ) {
        Some(Tier::Caution90)
    } else if percentage_tenths >= 750 && should_notify_threshold(
        &state.last_75_percent_notified,
        one_day_ago,
    ) {
        Some(Tier::Warning75)
    } else {
        None
    }
}

/// The state after stamping `tier`'s last-notified timestamp to `now`;
/// the other tiers' timestamps are untouched.
pub open spec fn spec_stamp(state: NotificationState, tier: Tier, now: i64) -> NotificationState {
    match tier {
        Tier::Warning75 => NotificationState {
            last_75_percent_notified: Some(now),
            ..state
        },
        Tier::Caution90 => NotificationState {
            last_90_percent_notified: Some(now),
            ..state
        },
        Tier::Critical95 => NotificationState {
            last_95_percent_notified: Some(now),
            ..state
        },
    }
}

/// Stamps `tier`'s last-notified timestamp to `now`.
pub fn stamp_tier(state: NotificationState, tier: Tier, now: i64) -> (r: NotificationState)
    ensures
        r == spec_stamp(state, tier, now),
{
    match tier {
        Tier::Warning75 => NotificationState { last_75_percent_notified: Some(now), ..state },
        Tier::Caution90 => NotificationState { last_90_percent_notified: Some(now), ..state },
        Tier::Critical95 => NotificationState { last_95_percent_notified: Some(now), ..state },
    }
}

/// Whether notifications are on: the `notifications_enabled` setting must
/// read exactly `"true"`, and an absent row defaults to enabled.
pub open spec fn spec_notifications_enabled(setting: Option<Seq<char>>) -> bool {
    match setting {
        Some(v) => v == "true"@,
        None => true,
    }
}

/// Whether `current` lies inside the quiet window `[start_hour,
/// end_hour)`, wrapping past midnight when the start does not precede the
/// end.
pub open spec fn spec_in_quiet_window(start_hour: u32, end_hour: u32, current: u32) -> bool {
    if start_hour < end_hour {
        current >= start_hour && current < end_hour
    } else {
        current >= start_hour || current < end_hour
    }
}

/// Whether the quiet-hours settings suppress checks at `current` local
/// hour: both rows must be present and non-empty and both hour prefixes
/// must parse; a malformed or absent window is never quiet.
pub open spec fn spec_is_quiet(
    start: Option<Seq<char>>,
    end: Option<Seq<char>>,
    current: u32,
) -> bool {
    match (start, end) {
        (Some(s), Some(e)) => s.len() > 0 && e.len() > 0 && match (
            spec_hour_of(s),
            spec_hour_of(e),
        ) {
            (Some(sh), Some(eh)) => spec_in_quiet_window(sh, eh, current),
            _ => false,
        },
        _ => false,
    }
}

/// Decides whether `current_hour` falls inside the configured quiet-hours
/// window.
pub fn is_quiet_hours_at(start: &Option<String>, end: &Option<String>, current_hour: u32) -> (r:
    bool)
    ensures
        r == spec_is_quiet(view_opt_string(*start), view_opt_string(*end), current_hour),
{
    match (start, end) {
        (Some(s), Some(e)) => {
            if s.unicode_len() == 0 || e.unicode_len() == 0 {
                return false;
            }
            match (parse_hour(s.as_str()), parse_hour(e.as_str())) {
                (Some(start_hour), Some(end_hour)) => {
                    if start_hour < end_hour {
                        current_hour >= start_hour && current_hour < end_hour
                    } else {
                        current_hour >= start_hour || current_hour < end_hour
                    }
                },
                _ => false,
            }
        },
        _ => false,
    }
}

/// The start of the rolling 24-hour window that debounces a tier,
/// saturating at the smallest timestamp.
pub open spec fn spec_day_ago(now: i64) -> int {
    if now as int - 86400 >= i64::MIN {
        now as int - 86400
    } else {
        i64::MIN as int
    }
}

/// What one notification check decides.
pub enum CheckOutcome {
    /// Notifications are disabled, the local time lies in quiet hours, or
    /// the reading allows no percentage: nothing is sent, nothing is
    /// persisted.
    Skipped,
    /// The check ran: `fired` is the tier to deliver now (if any), and
    /// `state` is the per-account notification state to persist — persisted
    /// whether or not a tier fired, so a newly created default state is
    /// captured.
    Evaluated { fired: Option<Tier>, state: NotificationState },
}

/// The decision of one check: skip when notifications are off, when the
/// local hour is quiet, or when the reading allows no percentage; else
/// evaluate the tiers against the prior state (a fresh default state when
/// none exists) and stamp the fired tier at `now`.
pub open spec fn spec_check_decision(
    quota: QuotaData,
    enabled: Option<Seq<char>>,
    quiet_start: Option<Seq<char>>,
    quiet_end: Option<Seq<char>>,
    current_hour: u32,
    prior_state: Option<NotificationState>,
    now: i64,
) -> CheckOutcome {
    if !spec_notifications_enabled(enabled) {
        CheckOutcome::Skipped
    } else if spec_is_quiet(quiet_start, quiet_end, current_hour) {
        CheckOutcome::Skipped
    } else {
        match spec_usage_percentage_tenths(quota@) {
            None => CheckOutcome::Skipped,
            Some(tenths) => {
                let state = match prior_state {
                    Some(s) => s,
                    None => NotificationState {
                        account_id: quota.account_id,
                        last_75_percent_notified: None,
                        last_90_percent_notified: None,
                        last_95_percent_notified: None,
                    },
                };
                let fired = spec_evaluate_tiers(state, tenths, spec_day_ago(now));
                let new_state = match fired {
                    Some(t) => spec_stamp(state, t, now),
                    None => state,
                };
                CheckOutcome::Evaluated { fired, state: new_state }
            },
        }
    }
}

/// Runs one notification check against the given settings, prior state
/// and clock readings, and returns what to do.
pub fn check_and_notify_decision(
    quota: &QuotaData,
    notifications_enabled: &Option<String>,
    quiet_start: &Option<String>,
    quiet_end: &Option<String>,
    current_hour: u32,
    prior_state: Option<NotificationState>,
    now: i64,
) -> (r: CheckOutcome)
    ensures
        r == spec_check_decision(
            *quota,
            view_opt_string(*notifications_enabled),
            view_opt_string(*quiet_start),
            view_opt_string(*quiet_end),
            current_hour,
            prior_state,
            now,
        ),
{
    let enabled = match notifications_enabled {
        Some(v) => str_eq_str(v.as_str(), "true"),
        None => true,
    };
    if !enabled {
        return CheckOutcome::Skipped;
    }
    if is_quiet_hours_at(quiet_start, quiet_end, current_hour) {
        return CheckOutcome::Skipped;
    }
    let tenths = match calculate_usage_percentage(quota) {
        Some(t) => t,
        None => {
            return CheckOutcome::Skipped;
        },
    };
    let state = match prior_state {
        Some(s) => s,
        None => NotificationState {
            account_id: quota.account_id.clone(),
            last_75_percent_notified: None,
            last_90_percent_notified: None,
            last_95_percent_notified: None,
        },
    };
    let one_day_ago = match now.checked_sub(86400) {
        Some(v) => v,
        None => i64::MIN,
    };
    let fired = evaluate_tiers(&state, tenths, one_day_ago);
    let new_state = match fired {
        Some(t) => stamp_tier(state, t, now),
        None => state,
    };
    CheckOutcome::Evaluated { fired, state: new_state }
}

/// Runs one notification check against the machine's clock: the local
/// hour decides quiet hours, and the current time stamps a fired tier.
pub fn check_and_notify_now(
    quota: &QuotaData,
    notifications_enabled: &Option<String>,
    quiet_start: &Option<String>,
    quiet_end: &Option<String>,
    prior_state: Option<NotificationState>,
) -> (r: CheckOutcome)
    ensures
        exists|hour: u32, now: i64|
            hour < 24 && r == #[trigger] spec_check_decision(
                *quota,
                view_opt_string(*notifications_enabled),
                view_opt_string(*quiet_start),
                view_opt_string(*quiet_end),
                hour,
                prior_state,
                now,
            ),
{
    let hour = clock::local_hour();
    let now = clock::now_timestamp();
    let r = check_and_notify_decision(
        quota,
        notifications_enabled,
        quiet_start,
        quiet_end,
        hour,
        prior_state,
        now,
    );
    proof {
        assert(r == spec_check_decision(
            *quota,
            view_opt_string(*notifications_enabled),
            view_opt_string(*quiet_start),
            view_opt_string(*quiet_end),
            hour,
            prior_state,
            now,
        ));
    }
    r
}

/// Law: once the critical tier fired at `now`, no re-evaluation whose
/// rolling window still reaches back to `now` fires the critical tier
/// again, whatever the percentage reads.
pub proof fn lemma_debounce_critical(
    state: NotificationState,
    tenths: int,
    now: i64,
    later: i64,
)
    requires
        spec_day_ago(later) <= now as int,
    ensures
        spec_evaluate_tiers(spec_stamp(state, Tier::Critical95, now), tenths, spec_day_ago(later))
            != Some(Tier::Critical95),
{
}

/// Law: a percentage at or above the critical boundary with no prior
/// critical notification fires exactly the critical tier — never the
/// caution or warning tier.
pub proof fn lemma_tier_priority(state: NotificationState, tenths: int, day_ago: int)
    requires
        tenths >= 950,
        state.last_95_percent_notified is None,
    ensures
        spec_evaluate_tiers(state, tenths, day_ago) == Some(Tier::Critical95),
{
}

/// Law: a quiet window that starts at hour 22 and ends at hour 6 wraps
/// midnight — it covers exactly the local hours 22, 23 and 0 through 5.
pub proof fn lemma_quiet_hours_wrapping(current: u32)
    requires
        current < 24,
    ensures
        spec_in_quiet_window(22, 6, current) == (current >= 22 || current < 6),
{
}

} // verus!
