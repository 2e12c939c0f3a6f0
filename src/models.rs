//! The quota snapshot and the dashboard's state.
use vstd::prelude::*;

verus! {

/// One per-model usage entry of a limit.
#[derive(Clone, Debug, PartialEq)]
pub struct UsageDetail {
    pub model_code: Option<String>,
    pub usage: Option<i64>,
}

/// One quota dimension. `percentage` is in hundredths of a percent
/// (`5000` is 50%); every numeric field may be absent.
#[derive(Clone, Debug, PartialEq)]
pub struct Limit {
    pub limit_type: String,
    pub usage: Option<i64>,
    pub current_value: Option<i64>,
    pub remaining: Option<i64>,
    pub percentage: Option<i64>,
    pub unit: Option<i64>,
    pub number: Option<i32>,
    pub usage_details: Vec<UsageDetail>,
    /// Milliseconds since the Unix epoch, UTC.
    pub next_reset_time: Option<i64>,
}

/// All limits fetched by one successful request, in the order received.
#[derive(Clone, Debug, PartialEq)]
pub struct QuotaLimitResponse {
    pub limits: Vec<Limit>,
}

/// The refresh deadline that follows a fetch completed at `now`.
pub open spec fn deadline_after(now: int, interval: int) -> int {
    if now + interval <= u64::MAX { now + interval } else { u64::MAX as int }
}

/// What the dashboard knows. Times `next_refresh` and the `now` arguments
/// are milliseconds on a monotonic clock; `refresh_interval` is in
/// milliseconds; `last_update` is wall-clock milliseconds since the epoch.
#[derive(Clone, Debug)]
pub struct AppState {
    pub quota_data: Option<QuotaLimitResponse>,
    pub last_update: Option<i64>,
    pub last_error: Option<String>,
    pub next_refresh: u64,
    pub refresh_interval: u64,
    pub is_loading: bool,
    pub should_quit: bool,
}

/// The state after a successful fetch at `now` (wall clock `wall_ms`).
pub open spec fn after_success(s: AppState, data: QuotaLimitResponse, now: u64, wall_ms: i64) -> AppState {
    AppState {
        quota_data: Some(data),
        last_update: Some(wall_ms),
        last_error: None,
        next_refresh: deadline_after(now as int, s.refresh_interval as int) as u64,
        is_loading: false,
        ..s
    }
}

/// The state after a failed fetch at `now`.
pub open spec fn after_failure(s: AppState, error: String, now: u64) -> AppState {
    AppState {
        last_error: Some(error),
        next_refresh: deadline_after(now as int, s.refresh_interval as int) as u64,
        is_loading: false,
        ..s
    }
}

/// The state after the user forces a refresh at `now`.
pub open spec fn after_force(s: AppState, now: u64) -> AppState {
    AppState { next_refresh: now, is_loading: true, ..s }
}

/// Whether a refresh is due at time `now`.
pub open spec fn refresh_due(s: AppState, now: u64) -> bool {
    now >= s.next_refresh
}

impl AppState {
    /// A fresh state: no data, loading, and a refresh due at once.
    pub fn new(refresh_interval: u64, now: u64) -> (r: AppState)
        ensures
            r.quota_data is None,
            r.last_update is None,
            r.last_error is None,
            r.next_refresh == now,
            r.refresh_interval == refresh_interval,
            r.is_loading,
            !r.should_quit,
    {
        AppState {
            quota_data: None,
            last_update: None,
            last_error: None,
            next_refresh: now,
            refresh_interval,
            is_loading: true,
            should_quit: false,
        }
    }

    /// Records a successful fetch: the new snapshot replaces the old one, the
    /// error is cleared and the next refresh is one interval away.
    pub fn update_quota(&mut self, data: QuotaLimitResponse, now: u64, wall_ms: i64)
        ensures
            *final(self) == after_success(*old(self), data, now, wall_ms),
    {
        self.quota_data = Some(data);
        self.last_update = Some(wall_ms);
        self.last_error = None;
        self.is_loading = false;
        self.next_refresh = now.saturating_add(self.refresh_interval);
    }

    /// Records a failed fetch: the old snapshot stays, the error is kept and
    /// the next refresh is one interval away.
    pub fn set_error(&mut self, error: String, now: u64)
        ensures
            *final(self) == after_failure(*old(self), error, now),
    {
        self.last_error = Some(error);
        self.is_loading = false;
        self.next_refresh = now.saturating_add(self.refresh_interval);
    }

    /// Whole seconds left until the next refresh; zero once it is due.
    pub fn seconds_until_refresh(&self, now: u64) -> (r: i64)
        ensures
            r == if self.next_refresh > now { (self.next_refresh - now) / 1000 } else { 0 },
    {
        if self.next_refresh > now {
            ((self.next_refresh - now) / 1000) as i64
        } else {
            0
        }
    }

    /// Whether the refresh deadline has been reached.
    pub fn should_refresh_now(&self, now: u64) -> (r: bool)
        ensures
            r == refresh_due(*self, now),
    {
        now >= self.next_refresh
    }

    /// Makes the next refresh due at once and shows loading meanwhile.
    pub fn force_refresh(&mut self, now: u64)
        ensures
            *final(self) == after_force(*old(self), now),
    {
        self.next_refresh = now;
        self.is_loading = true;
    }
}

/// A failed refresh leaves the snapshot exactly as it was and records the
/// error; a successful one replaces the snapshot wholesale.
pub proof fn lemma_refresh_outcomes(s: AppState, data: QuotaLimitResponse, error: String, now: u64, wall_ms: i64)
    ensures
        after_failure(s, error, now).quota_data == s.quota_data,
        after_failure(s, error, now).last_error == Some(error),
        after_success(s, data, now, wall_ms).quota_data == Some(data),
        after_success(s, data, now, wall_ms).last_error is None,
{
}

/// Once a refresh is forced, the due check holds at every later evaluation,
/// however recently the last refresh happened.
pub proof fn lemma_forced_refresh_is_due(s: AppState, now: u64, later: u64)
    requires
        later >= now,
    ensures
        refresh_due(after_force(s, now), later),
{
}

/// Each completed fetch, success or failure, moves the deadline exactly one
/// interval past its completion time (when that fits the clock's range).
pub proof fn lemma_deadline_advances(s: AppState, data: QuotaLimitResponse, error: String, now: u64, wall_ms: i64)
    requires
        now as int + s.refresh_interval as int <= u64::MAX,
    ensures
        after_success(s, data, now, wall_ms).next_refresh == now + s.refresh_interval,
        after_failure(s, error, now).next_refresh == now + s.refresh_interval,
{
}


/// A forced refresh makes the next evaluation due; the fetch it triggers,
/// completing at `t`, ends loading and sets the deadline one interval past
/// `t` whatever its outcome, and a failure keeps the earlier snapshot and
/// its update time.
pub proof fn lemma_forced_refresh_cycle(
    s: AppState,
    now: u64,
    t: u64,
    data: QuotaLimitResponse,
    error: String,
    wall_ms: i64,
)
    requires
        t >= now,
        t as int + s.refresh_interval as int <= u64::MAX,
    ensures
        refresh_due(after_force(s, now), t),
        !after_success(after_force(s, now), data, t, wall_ms).is_loading,
        after_success(after_force(s, now), data, t, wall_ms).next_refresh == t + s.refresh_interval,
        after_success(after_force(s, now), data, t, wall_ms).quota_data == Some(data),
        after_success(after_force(s, now), data, t, wall_ms).last_error is None,
        !after_failure(after_force(s, now), error, t).is_loading,
        after_failure(after_force(s, now), error, t).next_refresh == t + s.refresh_interval,
        after_failure(after_force(s, now), error, t).quota_data == s.quota_data,
        after_failure(after_force(s, now), error, t).last_update == s.last_update,
        after_failure(after_force(s, now), error, t).last_error == Some(error),
{
}

} // verus!
