//! What the dashboard shows, decided from its state alone.
use vstd::prelude::*;
use vstd::string::StringExecFns;
use crate::models::AppState;

verus! {

/// The main area's content.
#[derive(Clone, Copy, Debug, PartialEq, Eq, Structural)]
pub enum BodyView {
    Loading,
    Error,
    NoData,
    Limits,
}

/// The emphasis of a limit's title line.
#[derive(Clone, Copy, Debug, PartialEq, Eq, Structural)]
pub enum Tone {
    Alert,
    Warning,
    Normal,
}

/// The smallest terminal that the full layout needs.
pub const MIN_WIDTH: u16 = 40;
pub const MIN_HEIGHT: u16 = 10;

/// Loading first, then an error, then the absence of data, else the limits.
pub open spec fn body_of(s: AppState) -> BodyView {
    if s.is_loading {
        BodyView::Loading
    } else if s.last_error is Some {
        BodyView::Error
    } else if s.quota_data is None {
        BodyView::NoData
    } else {
        BodyView::Limits
    }
}

/// The footer's connection word.
pub open spec fn status_of(s: AppState) -> Seq<char> {
    if s.is_loading {
        "Loading..."@
    } else if s.last_error is Some {
        "Error"@
    } else if s.quota_data is Some {
        "Connected"@
    } else {
        "Waiting"@
    }
}

/// Alert from 90%, warning from 70%, normal below; absent counts as zero.
/// The percentage is in hundredths of a percent.
pub open spec fn tone_of(pct: Option<i64>) -> Tone {
    let p = match pct { Some(p) => p as int, None => 0 };
    if p >= 9000 { Tone::Alert } else if p >= 7000 { Tone::Warning } else { Tone::Normal }
}

/// Which content the main area shows.
pub fn body_view(state: &AppState) -> (r: BodyView)
    ensures
        r == body_of(*state),
{
    if state.is_loading {
        BodyView::Loading
    } else if state.last_error.is_some() {
        BodyView::Error
    } else if state.quota_data.is_none() {
        BodyView::NoData
    } else {
        BodyView::Limits
    }
}

/// The footer's connection word.
pub fn status_word(state: &AppState) -> (r: String)
    ensures
        r@ == status_of(*state),
{
    proof {
        reveal_strlit("Loading...");
        reveal_strlit("Error");
        reveal_strlit("Connected");
        reveal_strlit("Waiting");
    }
    if state.is_loading {
        String::from_str("Loading...")
    } else if state.last_error.is_some() {
        String::from_str("Error")
    } else if state.quota_data.is_some() {
        String::from_str("Connected")
    } else {
        String::from_str("Waiting")
    }
}

/// The emphasis of a limit with the given percentage (hundredths).
pub fn limit_tone(percentage: Option<i64>) -> (r: Tone)
    ensures
        r == tone_of(percentage),
{
    let p: i64 = match percentage {
        Some(p) => p,
        None => 0,
    };
    if p >= 9000 {
        Tone::Alert
    } else if p >= 7000 {
        Tone::Warning
    } else {
        Tone::Normal
    }
}

/// Whether a terminal of this size can hold the full layout.
pub fn fits_terminal(width: u16, height: u16) -> (r: bool)
    ensures
        r == (width >= MIN_WIDTH && height >= MIN_HEIGHT),
{
    width >= MIN_WIDTH && height >= MIN_HEIGHT
}

/// The rows given to each of `count` limits in `inner_height` rows: an even
/// share, rounded down (a single share when there are none).
pub fn row_height(inner_height: u16, count: usize) -> (r: u16)
    ensures
        r as int == inner_height as int / (if count == 0 { 1 } else { count as int }),
{
    let n: usize = if count == 0 { 1 } else { count };
    ((inner_height as usize) / n) as u16
}

} // verus!
