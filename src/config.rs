//! Connection settings: where the quota endpoint lives and which platform
//! serves it.
use vstd::prelude::*;
use vstd::string::{StrSliceExecFns, StringExecFns};
use crate::text::{decimal, push_char, push_str, u64_text};

verus! {

/// Whether the URL parser accepts a text.
pub uninterp spec fn url_parses(s: Seq<char>) -> bool;

/// The scheme of a text that parses as a URL.
pub uninterp spec fn url_scheme(s: Seq<char>) -> Seq<char>;

/// The host of a text that parses as a URL, if it has one.
pub uninterp spec fn url_host(s: Seq<char>) -> Option<Seq<char>>;

/// The explicit, non-default port of a text that parses as a URL, if any.
pub uninterp spec fn url_port(s: Seq<char>) -> Option<u16>;

/// Relies on url::Url::parse (fails exactly on the texts it rejects) and on
/// Url::scheme, Url::host_str and Url::port of the parsed URL, each of which
/// depends on the text alone.
#[verifier::external_body]
fn url_parts(s: &str) -> (r: Option<(String, Option<String>, Option<u16>)>)
    ensures
        r is Some <==> url_parses(s@),
        match r {
            Some((scheme, host, port)) => scheme@ == url_scheme(s@) && port == url_port(s@) && match host {
                Some(h) => url_host(s@) == Some(h@),
                None => url_host(s@) is None,
            },
            None => true,
        },
{
    match url::Url::parse(s) {
        Ok(u) => Some((u.scheme().to_string(), u.host_str().map(|h| h.to_string()), u.port())),
        Err(_) => None,
    }
}

/// The domain that a base URL names: "scheme://host[:port]" of its parts.
pub open spec fn domain_of(base_url: Seq<char>) -> Seq<char> {
    domain_text(url_scheme(base_url), url_host(base_url), url_port(base_url))
}

/// Whether a character has the Unicode White_Space property, as
/// `char::is_whitespace` decides.
pub open spec fn is_whitespace(c: char) -> bool {
    ('\u{9}' <= c <= '\u{d}') || c == ' ' || c == '\u{85}' || c == '\u{a0}' || c == '\u{1680}'
        || ('\u{2000}' <= c <= '\u{200a}') || c == '\u{2028}' || c == '\u{2029}' || c == '\u{202f}'
        || c == '\u{205f}' || c == '\u{3000}'
}

/// A text without its leading whitespace.
pub open spec fn trim_start(s: Seq<char>) -> Seq<char>
    decreases s.len(),
{
    if s.len() > 0 && is_whitespace(s[0]) { trim_start(s.drop_first()) } else { s }
}

/// A text without its trailing whitespace.
pub open spec fn trim_end(s: Seq<char>) -> Seq<char>
    decreases s.len(),
{
    if s.len() > 0 && is_whitespace(s.last()) { trim_end(s.drop_last()) } else { s }
}

/// A text without whitespace at either end.
pub open spec fn trimmed(s: Seq<char>) -> Seq<char> {
    trim_end(trim_start(s))
}

/// Relies on str::trim: leading and trailing characters with the Unicode
/// White_Space property removed.
#[verifier::external_body]
pub(crate) fn trim_text(s: &str) -> (r: String)
    ensures
        r@ == trimmed(s@),
{
    s.trim().to_string()
}

/// Whether `t` occurs in `s` as a contiguous run.
pub open spec fn has_substring(s: Seq<char>, t: Seq<char>) -> bool {
    exists|i: int| 0 <= i && i + t.len() <= s.len() && #[trigger] s.subrange(i, i + t.len()) == t
}

/// Whether `pat` occurs in `s`, by comparing it at each position.
fn text_contains(s: &str, pat: &str) -> (r: bool)
    ensures
        r == has_substring(s@, pat@),
{
    let n = s.unicode_len();
    let m = pat.unicode_len();
    if m > n {
        return false;
    }
    if m == 0 {
        assert(s@.subrange(0, 0 + pat@.len() as int) =~= pat@);
        assert(has_substring(s@, pat@));
        return true;
    }
    let mut i: usize = 0;
    while i <= n - m
        invariant
            n == s@.len(),
            m == pat@.len(),
            0 < m <= n,
            i <= n - m + 1,
            forall|j: int| 0 <= j < i ==> #[trigger] s@.subrange(j, j + m) != pat@,
        decreases n - m + 1 - i,
    {
        let mut k: usize = 0;
        let mut same = true;
        while k < m && same
            invariant
                i + m <= n,
                n == s@.len(),
                m == pat@.len(),
                k <= m,
                same ==> s@.subrange(i as int, i + k) == pat@.take(k as int),
                !same ==> s@.subrange(i as int, i + m) != pat@,
            decreases 2 * (m - k) + if same { 1int } else { 0int },
        {
            if s.get_char(i + k) != pat.get_char(k) {
                same = false;
                assert(s@.subrange(i as int, i + m)[k as int] != pat@[k as int]);
            } else {
                k = k + 1;
                assert(s@.subrange(i as int, i + k) =~= pat@.take(k as int));
            }
        }
        if same {
            assert(pat@.take(m as int) =~= pat@);
            assert(s@.subrange(i as int, i + m) == pat@);
            return true;
        }
        i = i + 1;
    }
    false
}

/// The settings file's `[api]` table.
#[derive(Clone, Debug, Default)]
pub struct ApiSection {
    pub base_url: Option<String>,
    pub auth_token: Option<String>,
}

/// The settings file.
#[derive(Clone, Debug, Default)]
pub struct ConfigFile {
    pub api: ApiSection,
}

/// What the monitor connects with.
#[derive(Clone, Debug)]
pub struct Config {
    pub base_url: String,
    pub auth_token: String,
    pub refresh_sec: u64,
    pub http_timeout_sec: u64,
}

/// The service that hosts the endpoint.
#[derive(Clone, Copy, Debug, PartialEq, Eq, Structural)]
pub enum Platform {
    Zai,
    Zhipu,
    Unknown,
}

/// The URLs that the client uses.
#[derive(Clone, Debug)]
pub struct Endpoints {
    pub quota_limit_url: String,
    pub domain: String,
}

/// Why settings are unusable.
#[derive(Clone, Debug, PartialEq)]
pub enum ConfigError {
    /// The base URL does not parse.
    InvalidBaseUrl,
    /// A required setting has no value; it holds the setting's description.
    Missing(String),
}

pub open spec fn zai_host() -> Seq<char> {
    "api.z.ai"@
}

pub open spec fn zhipu_open_host() -> Seq<char> {
    "open.bigmodel.cn"@
}

pub open spec fn zhipu_dev_host() -> Seq<char> {
    "dev.bigmodel.cn"@
}

/// The platform that a base URL names.
pub open spec fn platform_of(base_url: Seq<char>) -> Platform {
    if has_substring(base_url, zai_host()) {
        Platform::Zai
    } else if has_substring(base_url, zhipu_open_host()) || has_substring(base_url, zhipu_dev_host()) {
        Platform::Zhipu
    } else {
        Platform::Unknown
    }
}

/// "scheme://host" or "scheme://host:port", the host "unknown" when absent.
pub open spec fn domain_text(scheme: Seq<char>, host: Option<Seq<char>>, port: Option<u16>) -> Seq<char> {
    let h = match host {
        Some(h) => h,
        None => seq!['u', 'n', 'k', 'n', 'o', 'w', 'n'],
    };
    let authority = match port {
        Some(p) => h + seq![':'] + decimal(p as nat),
        None => h,
    };
    scheme + seq![':', '/', '/'] + authority
}

/// The path of the quota endpoint below the domain.
pub open spec fn quota_path() -> Seq<char> {
    "/api/monitor/usage/quota/limit"@
}

/// The value of a setting: the environment's when it is non-blank after
/// trimming, else the file's when that is, else the default.
pub open spec fn setting_value(env: Option<Seq<char>>, file: Option<Seq<char>>, default: Option<Seq<char>>) -> Option<Seq<char>> {
    if env is Some && trimmed(env->0).len() > 0 {
        Some(trimmed(env->0))
    } else if file is Some && trimmed(file->0).len() > 0 {
        Some(trimmed(file->0))
    } else {
        default
    }
}

impl Platform {
    /// The platform's display name.
    pub fn label(&self) -> (r: String)
        ensures
            r@ == match *self {
                Platform::Zai => "ZAI"@,
                Platform::Zhipu => "ZHIPU"@,
                Platform::Unknown => "UNKNOWN"@,
            },
    {
        proof { reveal_strlit("ZAI"); reveal_strlit("ZHIPU"); reveal_strlit("UNKNOWN"); }
        match self {
            Platform::Zai => String::from_str("ZAI"),
            Platform::Zhipu => String::from_str("ZHIPU"),
            Platform::Unknown => String::from_str("UNKNOWN"),
        }
    }
}

/// Builds "scheme://host[:port]" from the parts of a parsed URL.
pub fn compose_domain(scheme: &str, host: Option<&str>, port: Option<u16>) -> (r: String)
    ensures
        r@ == domain_text(scheme@, match host { Some(h) => Some(h@), None => None }, port),
{
    let mut s = String::from_str(scheme);
    push_str(&mut s, "://");
    proof { reveal_strlit("://"); reveal_strlit("unknown"); }
    match host {
        Some(h) => push_str(&mut s, h),
        None => push_str(&mut s, "unknown"),
    }
    match port {
        Some(p) => {
            push_char(&mut s, ':');
            push_str(&mut s, u64_text(p as u64).as_str());
        }
        None => {}
    }
    assert(s@ =~= domain_text(scheme@, match host { Some(h) => Some(h@), None => None }, port));
    s
}

impl Config {
    /// The scheme and authority of the base URL, or an error when it does
    /// not parse.
    pub fn domain(&self) -> (r: Result<String, ConfigError>)
        ensures
            r is Ok <==> url_parses(self.base_url@),
            r is Err ==> r == Err::<String, ConfigError>(ConfigError::InvalidBaseUrl),
            r is Ok ==> r->Ok_0@ == domain_of(self.base_url@),
    {
        match url_parts(self.base_url.as_str()) {
            Some((scheme, host, port)) => {
                let d = match &host {
                    Some(h) => compose_domain(scheme.as_str(), Some(h.as_str()), port),
                    None => compose_domain(scheme.as_str(), None, port),
                };
                Ok(d)
            }
            None => Err(ConfigError::InvalidBaseUrl),
        }
    }

    /// Which platform the base URL points at.
    pub fn platform(&self) -> (r: Platform)
        ensures
            r == platform_of(self.base_url@),
    {
        let s = self.base_url.as_str();
        proof { reveal_strlit("api.z.ai"); reveal_strlit("open.bigmodel.cn"); reveal_strlit("dev.bigmodel.cn"); }
        if text_contains(s, "api.z.ai") {
            Platform::Zai
        } else if text_contains(s, "open.bigmodel.cn") || text_contains(s, "dev.bigmodel.cn") {
            Platform::Zhipu
        } else {
            Platform::Unknown
        }
    }

    /// The endpoint URLs under the base URL's domain.
    pub fn endpoints(&self) -> (r: Result<Endpoints, ConfigError>)
        ensures
            r is Ok <==> url_parses(self.base_url@),
            r is Err ==> r->Err_0 == ConfigError::InvalidBaseUrl,
            r is Ok ==> r->Ok_0.quota_limit_url@ == r->Ok_0.domain@ + quota_path(),
            r is Ok ==> r->Ok_0.domain@ == domain_of(self.base_url@),
    {
        match self.domain() {
            Ok(domain) => {
                let mut url = domain.clone();
                push_str(&mut url, "/api/monitor/usage/quota/limit");
                proof { reveal_strlit("/api/monitor/usage/quota/limit"); }
                Ok(Endpoints { quota_limit_url: url, domain })
            }
            Err(e) => Err(e),
        }
    }
}

/// Picks a setting from the environment's value, the file's value and a
/// default, in that order of precedence; blank values count as unset.
pub fn choose_setting(env: Option<&str>, file: Option<&str>, default: Option<&str>, description: &str) -> (r: Result<String, ConfigError>)
    ensures
        ({
            let v = setting_value(
                match env { Some(e) => Some(e@), None => None },
                match file { Some(f) => Some(f@), None => None },
                match default { Some(d) => Some(d@), None => None },
            );
            match r {
                Ok(s) => v == Some(s@),
                Err(e) => v is None && e is Missing && e->Missing_0@ == description@,
            }
        }),
{
    if let Some(e) = env {
        let t = trim_text(e);
        if !t.as_str().is_empty() {
            return Ok(t);
        }
    }
    if let Some(f) = file {
        let t = trim_text(f);
        if !t.as_str().is_empty() {
            return Ok(t);
        }
    }
    match default {
        Some(d) => Ok(String::from_str(d)),
        None => Err(ConfigError::Missing(String::from_str(description))),
    }
}


/// Whether every character is an ASCII digit.
pub open spec fn all_digits(s: Seq<char>) -> bool {
    forall|i: int| 0 <= i < s.len() ==> '0' <= #[trigger] s[i] <= '9'
}

/// The value of a run of ASCII digits.
pub open spec fn digits_value(s: Seq<char>) -> nat
    decreases s.len(),
{
    if s.len() == 0 {
        0
    } else {
        digits_value(s.drop_last()) * 10 + ((s.last() as u32 - '0' as u32) as nat)
    }
}

/// The digits of an unsigned number's text: all of it, or all but a
/// leading plus sign.
pub open spec fn unsigned_digits(s: Seq<char>) -> Seq<char> {
    if s.len() > 0 && s[0] == '+' { s.drop_first() } else { s }
}

/// The value of a text as an unsigned 64-bit number, if it is one: an
/// optional plus sign, then one or more ASCII digits, at most `u64::MAX`.
pub open spec fn u64_of_text(s: Seq<char>) -> Option<u64> {
    let d = unsigned_digits(s);
    if d.len() > 0 && all_digits(d) && digits_value(d) <= u64::MAX {
        Some(digits_value(d) as u64)
    } else {
        None
    }
}

proof fn lemma_digits_value_grows(d: Seq<char>, k: int)
    requires
        all_digits(d),
        0 <= k <= d.len(),
    ensures
        digits_value(d) >= digits_value(d.take(k)),
    decreases d.len(),
{
    if k < d.len() {
        lemma_digits_value_grows(d.drop_last(), k);
        assert(d.drop_last().take(k) =~= d.take(k));
        assert(digits_value(d) >= digits_value(d.drop_last())) by (nonlinear_arith)
            requires digits_value(d) == digits_value(d.drop_last()) * 10 + ((d.last() as u32 - '0' as u32) as nat);
    } else {
        assert(d.take(k) =~= d);
    }
}

/// The value of a text as an unsigned 64-bit number, as `u64`'s `FromStr`
/// reads it: an optional `+`, then digits only, within range.
pub fn parse_u64(s: &str) -> (r: Option<u64>)
    ensures
        r == u64_of_text(s@),
{
    let n = s.unicode_len();
    let mut i: usize = 0;
    if n > 0 && s.get_char(0) == '+' {
        i = 1;
    }
    let start = i;
    let ghost d = unsigned_digits(s@);
    assert(d =~= s@.subrange(start as int, n as int));
    if start == n {
        return None;
    }
    let mut v: u64 = 0;
    while i < n
        invariant
            start <= i <= n,
            n == s@.len(),
            d == s@.subrange(start as int, n as int),
            d == unsigned_digits(s@),
            all_digits(d.take(i - start)),
            v as nat == digits_value(d.take(i - start)),
        decreases n - i,
    {
        let c = s.get_char(i);
        assert(d[i - start] == c);
        if !('0' <= c && c <= '9') {
            assert(!all_digits(d));
            return None;
        }
        let dg: u64 = (c as u32 - '0' as u32) as u64;
        let ghost next = d.take(i - start + 1);
        assert(next.drop_last() =~= d.take(i - start));
        assert(next.last() == c);
        assert(digits_value(next) == v as nat * 10 + dg as nat);
        if v > (u64::MAX - dg) / 10 {
            assert(v as nat * 10 + dg as nat > u64::MAX) by (nonlinear_arith)
                requires v > (u64::MAX - dg) / 10, dg <= 9;
            proof {
                if all_digits(d) {
                    lemma_digits_value_grows(d, i - start + 1);
                }
            }
            return None;
        }
        assert(v as nat * 10 + dg as nat <= u64::MAX) by (nonlinear_arith)
            requires v <= (u64::MAX - dg) / 10, dg <= 9;
        v = v * 10 + dg;
        i = i + 1;
        assert(all_digits(d.take(i - start)));
    }
    assert(d.take(n - start) =~= d);
    Some(v)
}

/// A numeric setting: the text's value when it is an unsigned number, else
/// the default.
pub fn number_setting(text: Option<&str>, default: u64) -> (r: u64)
    ensures
        r == match text {
            Some(t) => match u64_of_text(t@) {
                Some(v) => v,
                None => default,
            },
            None => default,
        },
{
    match text {
        Some(t) => match parse_u64(t) {
            Some(v) => v,
            None => default,
        },
        None => default,
    }
}

} // verus!
