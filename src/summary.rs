//! The one-line status for status bars: the busiest limit, its class, and
//! the full listing as a tooltip.
use vstd::prelude::*;
use vstd::string::StringExecFns;
use crate::config::{trim_text, trimmed};
use crate::format::{round_percent, whole_percent};
use crate::models::{Limit, QuotaLimitResponse};
use crate::text::{decimal, push_char, push_str, u64_text};

verus! {

/// How urgent the busiest limit is.
#[derive(Clone, Copy, Debug, PartialEq, Eq, Structural)]
pub enum StatusClass {
    Normal,
    Warning,
    Critical,
}

/// The status line's text, class and whole percentage.
#[derive(Clone, Debug)]
pub struct Headline {
    pub text: String,
    pub class: StatusClass,
    pub percentage: i64,
}

/// The highest percentage (hundredths) among the first `n` limits, never
/// below zero, with the index of the first limit that reaches it above zero.
pub open spec fn peak(ls: Seq<Limit>, n: int) -> (int, Option<int>)
    decreases n,
{
    if n <= 0 {
        (0, None)
    } else {
        let (m, t) = peak(ls, n - 1);
        match ls[n - 1].percentage {
            Some(p) => if p > m { (p as int, Some(n - 1)) } else { (m, t) },
            None => (m, t),
        }
    }
}

/// Critical above 90%, warning above 75%, else normal (hundredths).
pub open spec fn class_of(m: int) -> StatusClass {
    if m > 9000 { StatusClass::Critical } else if m > 7500 { StatusClass::Warning } else { StatusClass::Normal }
}

/// "{type}: {percent}%" of the busiest limit, or "GLM: N/A" when no limit
/// reports a percentage above zero.
pub open spec fn headline_text(ls: Seq<Limit>) -> Seq<char> {
    let (m, t) = peak(ls, ls.len() as int);
    match t {
        Some(i) => ls[i].limit_type@ + ": "@ + decimal(whole_percent(m) as nat) + "%"@,
        None => "GLM: N/A"@,
    }
}

/// Each line followed by a line break, and one more break after the block.
pub open spec fn block_text(lines: Seq<String>) -> Seq<char>
    decreases lines.len(),
{
    if lines.len() == 0 {
        seq!['\n']
    } else {
        lines[0]@ + seq!['\n'] + block_text(lines.drop_first())
    }
}

/// The blocks one after another.
pub open spec fn blocks_text(blocks: Seq<Vec<String>>) -> Seq<char>
    decreases blocks.len(),
{
    if blocks.len() == 0 {
        Seq::empty()
    } else {
        block_text(blocks[0]@) + blocks_text(blocks.drop_first())
    }
}

pub proof fn lemma_peak_bounds(ls: Seq<Limit>, n: int)
    requires
        0 <= n <= ls.len(),
    ensures
        peak(ls, n).0 >= 0,
        peak(ls, n).1 is Some ==> ({
            let i = peak(ls, n).1->0;
            0 <= i < n && ls[i].percentage == Some(peak(ls, n).0 as i64) && peak(ls, n).0 > 0
        }),
        peak(ls, n).1 is None ==> peak(ls, n).0 == 0,
        peak(ls, n).0 <= i64::MAX,
    decreases n,
{
    if n > 0 {
        lemma_peak_bounds(ls, n - 1);
    }
}


/// When no limit reports a percentage, the status line reads "GLM: N/A"
/// at zero percent, in the normal class.
pub proof fn lemma_no_percentage_headline(ls: Seq<Limit>)
    requires
        forall|i: int| 0 <= i < ls.len() ==> (#[trigger] ls[i]).percentage is None,
    ensures
        headline_text(ls) == "GLM: N/A"@,
        peak(ls, ls.len() as int).0 / 100 == 0,
        class_of(peak(ls, ls.len() as int).0) == StatusClass::Normal,
{
    lemma_peak_unset(ls, ls.len() as int);
}

proof fn lemma_peak_unset(ls: Seq<Limit>, n: int)
    requires
        0 <= n <= ls.len(),
        forall|i: int| 0 <= i < ls.len() ==> (#[trigger] ls[i]).percentage is None,
    ensures
        peak(ls, n) == (0int, None::<int>),
    decreases n,
{
    if n > 0 {
        lemma_peak_unset(ls, n - 1);
        assert(ls[n - 1].percentage is None);
    }
}

impl StatusClass {
    /// The class name that status bars style by.
    pub fn label(&self) -> (r: String)
        ensures
            r@ == match *self {
                StatusClass::Normal => "normal"@,
                StatusClass::Warning => "warning"@,
                StatusClass::Critical => "critical"@,
            },
    {
        proof { reveal_strlit("normal"); reveal_strlit("warning"); reveal_strlit("critical"); }
        match self {
            StatusClass::Normal => String::from_str("normal"),
            StatusClass::Warning => String::from_str("warning"),
            StatusClass::Critical => String::from_str("critical"),
        }
    }
}

/// The status line of a snapshot: the first limit with the highest
/// percentage names it, the class follows that percentage, and the whole
/// percentage is rounded toward zero.
pub fn headline(quota: &QuotaLimitResponse) -> (r: Headline)
    ensures
        r.text@ == headline_text(quota.limits@),
        r.class == class_of(peak(quota.limits@, quota.limits@.len() as int).0),
        r.percentage == peak(quota.limits@, quota.limits@.len() as int).0 / 100,
{
    let n = quota.limits.len();
    let mut max_pct: i64 = 0;
    let mut best: Option<usize> = None;
    let mut i: usize = 0;
    while i < n
        invariant
            n == quota.limits@.len(),
            i <= n,
            peak(quota.limits@, i as int) == (max_pct as int, match best { Some(b) => Some(b as int), None => None::<int> }),
        decreases n - i,
    {
        match quota.limits[i].percentage {
            Some(p) => {
                if p > max_pct {
                    max_pct = p;
                    best = Some(i);
                }
            }
            None => {}
        }
        i = i + 1;
    }
    proof { lemma_peak_bounds(quota.limits@, n as int); }
    let text = match best {
        Some(b) => {
            let mut t = quota.limits[b].limit_type.clone();
            push_str(&mut t, ": ");
            let rounded: u64 = round_percent(max_pct as u64);
            assert(rounded as int == whole_percent(max_pct as int));
            push_str(&mut t, u64_text(rounded).as_str());
            push_char(&mut t, '%');
            proof { reveal_strlit(": "); reveal_strlit("%"); }
            assert(t@ =~= headline_text(quota.limits@));
            t
        }
        None => {
            proof { reveal_strlit("GLM: N/A"); }
            String::from_str("GLM: N/A")
        }
    };
    let class = if max_pct > 9000 {
        StatusClass::Critical
    } else if max_pct > 7500 {
        StatusClass::Warning
    } else {
        StatusClass::Normal
    };
    Headline { text, class, percentage: max_pct / 100 }
}

/// The tooltip: every block's lines, each ended by a line break, a blank
/// line after each block, and surrounding whitespace trimmed.
pub fn tooltip_text(blocks: &Vec<Vec<String>>) -> (r: String)
    ensures
        r@ == trimmed(blocks_text(blocks@)),
{
    let mut s = String::new();
    let n = blocks.len();
    let mut i: usize = 0;
    assert(blocks@.subrange(0, n as int) =~= blocks@);
    assert(s@ + blocks_text(blocks@) =~= blocks_text(blocks@));
    while i < n
        invariant
            n == blocks@.len(),
            i <= n,
            s@ + blocks_text(blocks@.subrange(i as int, n as int)) == blocks_text(blocks@),
        decreases n - i,
    {
        let block = &blocks[i];
        let m = block.len();
        let ghost at_block = s@;
        let mut j: usize = 0;
        assert(block@.subrange(0, m as int) =~= block@);
        while j < m
            invariant
                m == block@.len(),
                j <= m,
                s@ + block_text(block@.subrange(j as int, m as int)) == at_block + block_text(block@),
            decreases m - j,
        {
            assert(block@.subrange(j as int, m as int).drop_first() =~= block@.subrange(j + 1, m as int));
            push_str(&mut s, block[j].as_str());
            push_char(&mut s, '\n');
            j = j + 1;
            assert(s@ + block_text(block@.subrange(j as int, m as int)) =~= at_block + block_text(block@));
        }
        push_char(&mut s, '\n');
        assert(s@ =~= at_block + block_text(block@));
        assert(blocks@.subrange(i as int, n as int).drop_first() =~= blocks@.subrange(i + 1, n as int));
        i = i + 1;
        assert(s@ + blocks_text(blocks@.subrange(i as int, n as int)) =~= blocks_text(blocks@));
    }
    assert(blocks@.subrange(n as int, n as int) =~= Seq::<Vec<String>>::empty());
    assert(s@ =~= blocks_text(blocks@));
    trim_text(s.as_str())
}

/// The tooltip after a failed fetch: the error's text, or "No data".
pub fn failure_tooltip(last_error: Option<String>) -> (r: String)
    ensures
        r@ == match last_error { Some(e) => e@, None => "No data"@ },
{
    match last_error {
        Some(e) => e,
        None => {
            proof { reveal_strlit("No data"); }
            String::from_str("No data")
        }
    }
}

/// The text of the status line after a failed fetch.
pub fn failure_text() -> (r: String)
    ensures
        r@ == "GLM: Err"@,
{
    proof { reveal_strlit("GLM: Err"); }
    String::from_str("GLM: Err")
}

} // verus!
