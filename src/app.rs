//! The dashboard application: settings, state, and the decisions of its
//! event loop.
use vstd::prelude::*;
use vstd::string::StringExecFns;
use crate::api::{error_text, FetchError};
use crate::config::{domain_of, platform_of, quota_path, url_parses, Config, ConfigError, Endpoints, Platform};
use crate::models::{after_failure, after_force, after_success, refresh_due, AppState, QuotaLimitResponse};
use crate::text::{decimal, push_char, u64_text};

verus! {

/// A key press, as far as the dashboard tells keys apart.
#[derive(Clone, Copy, Debug, PartialEq, Eq, Structural)]
pub enum KeyInput {
    Char(char),
    Other,
}

/// The refresh interval in milliseconds for an interval in seconds, capped
/// at the clock's range.
pub open spec fn interval_ms(sec: u64) -> int {
    if sec * 1000 <= u64::MAX { sec * 1000 } else { u64::MAX as int }
}

/// "{n}s".
pub open spec fn seconds_text(n: u64) -> Seq<char> {
    decimal(n as nat).push('s')
}

pub struct App {
    pub config: Config,
    pub endpoints: Endpoints,
    pub state: AppState,
    pub platform: Platform,
}

impl App {
    /// A new application at time `now` (monotonic milliseconds): loading,
    /// with a refresh due at once. Fails when the base URL does not parse.
    pub fn new(config: Config, now: u64) -> (r: Result<App, ConfigError>)
        ensures
            r is Ok <==> url_parses(config.base_url@),
            r is Err ==> r->Err_0 == ConfigError::InvalidBaseUrl,
            r is Ok ==> ({
                let a = r->Ok_0;
                &&& a.platform == platform_of(config.base_url@)
                &&& a.config == config
                &&& a.endpoints.domain@ == domain_of(config.base_url@)
                &&& a.endpoints.quota_limit_url@ == domain_of(config.base_url@) + quota_path()
                &&& a.state.quota_data is None
                &&& a.state.last_update is None
                &&& a.state.last_error is None
                &&& a.state.next_refresh == now
                &&& a.state.refresh_interval == interval_ms(config.refresh_sec)
                &&& a.state.is_loading
                &&& !a.state.should_quit
            }),
    {
        match config.endpoints() {
            Ok(endpoints) => {
                let platform = config.platform();
                let interval: u64 = if config.refresh_sec <= u64::MAX / 1000 { config.refresh_sec * 1000 } else { u64::MAX };
                Ok(App { config, endpoints, state: AppState::new(interval, now), platform })
            }
            Err(e) => Err(e),
        }
    }

    /// `q` or `Q` asks to quit; `r` or `R` forces a refresh at `now`; other
    /// keys change nothing.
    pub fn handle_key_event(&mut self, key: KeyInput, now: u64)
        ensures
            final(self).config == old(self).config,
            final(self).platform == old(self).platform,
            final(self).endpoints == old(self).endpoints,
            final(self).state == match key {
                KeyInput::Char(c) => if c == 'q' || c == 'Q' {
                    AppState { should_quit: true, ..old(self).state }
                } else if c == 'r' || c == 'R' {
                    after_force(old(self).state, now)
                } else {
                    old(self).state
                },
                KeyInput::Other => old(self).state,
            },
    {
        match key {
            KeyInput::Char(c) => {
                if c == 'q' || c == 'Q' {
                    self.state.should_quit = true;
                } else if c == 'r' || c == 'R' {
                    self.state.force_refresh(now);
                }
            }
            KeyInput::Other => {}
        }
    }

    /// Whether the loop must fetch now.
    pub fn tick(&self, now: u64) -> (r: bool)
        ensures
            r == refresh_due(self.state, now),
    {
        self.state.should_refresh_now(now)
    }

    /// Records the outcome of a fetch completed at `now` (monotonic) and
    /// `wall_ms` (wall clock): a snapshot replaces the old one; an error is
    /// kept as its text and leaves the old snapshot in place.
    pub fn refresh_data(&mut self, outcome: Result<QuotaLimitResponse, FetchError>, now: u64, wall_ms: i64)
        ensures
            final(self).config == old(self).config,
            final(self).platform == old(self).platform,
            final(self).endpoints == old(self).endpoints,
            match outcome {
                Ok(q) => final(self).state == after_success(old(self).state, q, now, wall_ms),
                Err(e) => final(self).state.quota_data == old(self).state.quota_data
                    && final(self).state.last_error is Some
                    && final(self).state.last_error->0@ == error_text(e)
                    && final(self).state == after_failure(old(self).state, final(self).state.last_error->0, now),
            },
    {
        match outcome {
            Ok(q) => self.state.update_quota(q, now, wall_ms),
            Err(e) => {
                let text = e.message();
                self.state.set_error(text, now);
            }
        }
    }

    /// The base URL's domain, or "unknown" when it does not parse.
    pub fn domain(&self) -> (r: String)
        ensures
            !url_parses(self.config.base_url@) ==> r@ == "unknown"@,
            url_parses(self.config.base_url@) ==> r@ == domain_of(self.config.base_url@),
    {
        match self.config.domain() {
            Ok(d) => d,
            Err(_) => {
                proof { reveal_strlit("unknown"); }
                String::from_str("unknown")
            }
        }
    }

    /// The refresh interval as "{seconds}s".
    pub fn refresh_interval_str(&self) -> (r: String)
        ensures
            r@ == seconds_text(self.config.refresh_sec),
    {
        let mut s = u64_text(self.config.refresh_sec);
        push_char(&mut s, 's');
        s
    }

    /// The request timeout as "{seconds}s".
    pub fn timeout_str(&self) -> (r: String)
        ensures
            r@ == seconds_text(self.config.http_timeout_sec),
    {
        let mut s = u64_text(self.config.http_timeout_sec);
        push_char(&mut s, 's');
        s
    }

    /// The snapshot on show, if any.
    pub fn get_quota(&self) -> (r: Option<&QuotaLimitResponse>)
        ensures
            r == match self.state.quota_data { Some(q) => Some(&q), None => None },
    {
        match &self.state.quota_data {
            Some(q) => Some(q),
            None => None,
        }
    }

    /// The text of the last error, if any.
    pub fn get_last_error(&self) -> (r: Option<String>)
        ensures
            r is Some <==> self.state.last_error is Some,
            r is Some ==> r->0@ == self.state.last_error->0@,
    {
        match &self.state.last_error {
            Some(e) => Some(e.clone()),
            None => None,
        }
    }
}

} // verus!
