//! Turning one HTTP response into a quota snapshot or an error.
use vstd::prelude::*;
use vstd::string::StringExecFns;
use crate::models::QuotaLimitResponse;
use crate::text::{decimal, push_str, u64_text};

verus! {

/// Why a fetch produced no snapshot.
#[derive(Clone, Debug, PartialEq)]
pub enum FetchError {
    /// The request could not be sent.
    Transport(String),
    /// The response body could not be read.
    Body(String),
    /// The server answered with a status outside 200..=299.
    Status { status: u16, url: String, body: String },
    /// Neither the `data` member nor the whole body decoded as a snapshot.
    Decode(String),
}

/// Whether an HTTP status code reports success.
pub open spec fn status_ok(status: u16) -> bool {
    200 <= status <= 299
}

/// The result of decoding a successful body, given the outcome of decoding
/// its `data` member (`None` when the body has no such member) and the
/// outcome of decoding the whole body.
pub open spec fn decoded(
    envelope: Option<Result<QuotaLimitResponse, String>>,
    direct: Result<QuotaLimitResponse, String>,
) -> Result<QuotaLimitResponse, FetchError> {
    match envelope {
        Some(Ok(q)) => Ok(q),
        _ => match direct {
            Ok(q) => Ok(q),
            Err(e) => Err(FetchError::Decode(e)),
        },
    }
}

/// The outcome of one response.
pub open spec fn fetch_result(
    status: u16,
    url: String,
    body: String,
    envelope: Option<Result<QuotaLimitResponse, String>>,
    direct: Result<QuotaLimitResponse, String>,
) -> Result<QuotaLimitResponse, FetchError> {
    if status_ok(status) {
        decoded(envelope, direct)
    } else {
        Err(FetchError::Status { status, url, body })
    }
}

/// The text that describes an error to the user.
pub open spec fn error_text(e: FetchError) -> Seq<char> {
    match e {
        FetchError::Transport(d) => "Failed to send request to quota limit endpoint: "@ + d@,
        FetchError::Body(d) => "Failed to read response body: "@ + d@,
        FetchError::Status { status, url, body } => "HTTP "@ + decimal(status as nat)
            + ": Failed to fetch quota limit\nURL: "@ + url@ + "\nResponse: "@ + body@,
        FetchError::Decode(d) => "Failed to parse quota limit response: "@ + d@,
    }
}

/// Whether a status code reports success (200 through 299).
pub fn is_success(status: u16) -> (r: bool)
    ensures
        r == status_ok(status),
{
    200 <= status && status <= 299
}

/// Picks the snapshot of a successful body: the `data` member's when it
/// decoded, else the whole body's.
pub fn decode_payload(
    envelope: Option<Result<QuotaLimitResponse, String>>,
    direct: Result<QuotaLimitResponse, String>,
) -> (r: Result<QuotaLimitResponse, FetchError>)
    ensures
        r == decoded(envelope, direct),
{
    match envelope {
        Some(Ok(q)) => Ok(q),
        _ => match direct {
            Ok(q) => Ok(q),
            Err(e) => Err(FetchError::Decode(e)),
        },
    }
}

/// The outcome of a response with `status` and `body` from `url`: an error
/// carrying all three for a non-success status, else the decoded snapshot.
pub fn finish_fetch(
    status: u16,
    url: String,
    body: String,
    envelope: Option<Result<QuotaLimitResponse, String>>,
    direct: Result<QuotaLimitResponse, String>,
) -> (r: Result<QuotaLimitResponse, FetchError>)
    ensures
        r == fetch_result(status, url, body, envelope, direct),
{
    if is_success(status) {
        decode_payload(envelope, direct)
    } else {
        Err(FetchError::Status { status, url, body })
    }
}

impl FetchError {
    /// The text shown to the user for this error.
    pub fn message(&self) -> (r: String)
        ensures
            r@ == error_text(*self),
    {
        proof {
            reveal_strlit("Failed to send request to quota limit endpoint: ");
            reveal_strlit("Failed to read response body: ");
            reveal_strlit("HTTP ");
            reveal_strlit(": Failed to fetch quota limit\nURL: ");
            reveal_strlit("\nResponse: ");
            reveal_strlit("Failed to parse quota limit response: ");
        }
        match self {
            FetchError::Transport(d) => {
                let mut s = String::from_str("Failed to send request to quota limit endpoint: ");
                push_str(&mut s, d.as_str());
                s
            }
            FetchError::Body(d) => {
                let mut s = String::from_str("Failed to read response body: ");
                push_str(&mut s, d.as_str());
                s
            }
            FetchError::Status { status, url, body } => {
                let mut s = String::from_str("HTTP ");
                push_str(&mut s, u64_text(*status as u64).as_str());
                push_str(&mut s, ": Failed to fetch quota limit\nURL: ");
                push_str(&mut s, url.as_str());
                push_str(&mut s, "\nResponse: ");
                push_str(&mut s, body.as_str());
                assert(s@ =~= error_text(*self));
                s
            }
            FetchError::Decode(d) => {
                let mut s = String::from_str("Failed to parse quota limit response: ");
                push_str(&mut s, d.as_str());
                s
            }
        }
    }
}

/// A body wrapped as `{"data": ...}` and an unwrapped body that decode to
/// the same snapshot give the same result; a `data` member that does not
/// decode falls back to the whole body, as if there were no member.
pub proof fn lemma_wrapped_matches_direct(
    q: QuotaLimitResponse,
    wrapped_whole: Result<QuotaLimitResponse, String>,
    member_error: String,
    direct: Result<QuotaLimitResponse, String>,
)
    ensures
        decoded(Some(Ok(q)), wrapped_whole) == decoded(None, Ok(q)),
        decoded(Some(Err(member_error)), direct) == decoded(None, direct),
{
}

/// A response with a non-success status never yields a snapshot: it yields
/// a status error whose text begins with "HTTP " and the status code.
pub proof fn lemma_non_success_is_status_error(
    status: u16,
    url: String,
    body: String,
    envelope: Option<Result<QuotaLimitResponse, String>>,
    direct: Result<QuotaLimitResponse, String>,
)
    requires
        !status_ok(status),
    ensures
        fetch_result(status, url, body, envelope, direct) is Err,
        fetch_result(status, url, body, envelope, direct)->Err_0 == (FetchError::Status { status, url, body }),
        error_text(fetch_result(status, url, body, envelope, direct)->Err_0).subrange(0, 5 + decimal(status as nat).len() as int)
            == "HTTP "@ + decimal(status as nat),
{
    let e = FetchError::Status { status, url, body };
    let head = "HTTP "@ + decimal(status as nat);
    reveal_strlit("HTTP ");
    assert(error_text(e).subrange(0, head.len() as int) =~= head);
}

} // verus!
