//! Display formatting of integers, progress bars and limit entries.
use vstd::prelude::*;
use crate::text::{decimal, decimal_chars, i64_text, magnitude, push_char, push_decimal, push_str, signed_decimal};
use crate::models::{Limit, UsageDetail};
use crate::clock::{local_offset_at, now_millis, timestamp_valid, utc_seconds_valid};
use vstd::string::StringExecFns;

verus! {

/// Text shown where an optional value is absent.
pub open spec fn not_available() -> Seq<char> {
    seq!['N', '/', 'A']
}

/// Whether a separator stands before the digit at index `i` of a run of
/// `n` digits: the digits after it form whole groups of three.
pub open spec fn separator_before(n: int, i: int) -> bool {
    i > 0 && (n - i) % 3 == 0
}

/// The first `i` digits of `d`, with a space before each digit that starts a
/// group of three counted from the right end of `d`.
pub open spec fn grouped_prefix(d: Seq<char>, i: int) -> Seq<char>
    decreases i,
{
    if i <= 0 {
        Seq::empty()
    } else if separator_before(d.len() as int, i - 1) {
        grouped_prefix(d, i - 1).push(' ').push(d[i - 1])
    } else {
        grouped_prefix(d, i - 1).push(d[i - 1])
    }
}

/// A digit string split into groups of three from the right by single spaces.
pub open spec fn grouped(d: Seq<char>) -> Seq<char> {
    grouped_prefix(d, d.len() as int)
}

/// The thousands-grouped text of an integer, its sign in front.
pub open spec fn grouped_int(v: int) -> Seq<char> {
    if v < 0 {
        seq!['-'] + grouped(decimal((-v) as nat))
    } else {
        grouped(decimal(v as nat))
    }
}

/// The text of an optional integer: grouped digits, or "N/A" when absent.
pub open spec fn int_text(val: Option<i64>) -> Seq<char> {
    match val {
        Some(v) => grouped_int(v as int),
        None => not_available(),
    }
}

/// A percentage in hundredths of a percent, clamped to 0..=100 percent.
pub open spec fn clamped_hundredths(pct: Option<i64>) -> int {
    match pct {
        Some(h) => if h < 0 { 0 } else if h > 10000 { 10000 } else { h as int },
        None => 0,
    }
}

/// The number of filled cells of a bar `width` cells wide at `h` hundredths
/// of a percent: `h / 10000 * width`, rounded half up.
pub open spec fn filled_cells(h: int, width: int) -> int {
    (2 * h * width + 10000) / 20000
}

/// The whole percent of `h` hundredths of a percent (`h` not negative),
/// rounded to the nearest integer with exact halves going to the even one.
pub open spec fn whole_percent(h: int) -> int {
    let q = h / 100;
    let r = h % 100;
    if r > 50 || (r == 50 && q % 2 == 1) { q + 1 } else { q }
}

/// `n` copies of `c`.
pub open spec fn repeat_char(c: char, n: int) -> Seq<char> {
    Seq::new(if n < 0 { 0 } else { n as nat }, |i: int| c)
}

pub open spec fn full_cell() -> char {
    '\u{2588}'
}

pub open spec fn empty_cell() -> char {
    '\u{2591}'
}

/// The bar text: its cells in brackets, then the rounded percent.
pub open spec fn bar_text(pct: Option<i64>, width: int) -> Seq<char> {
    let h = clamped_hundredths(pct);
    let f = filled_cells(h, width);
    seq!['['] + repeat_char(full_cell(), f) + repeat_char(empty_cell(), width - f) + seq![']', ' ']
        + decimal(whole_percent(h) as nat) + seq!['%']
}

pub proof fn lemma_filled_cells_bounds(h: int, width: int)
    requires
        0 <= h <= 10000,
        0 <= width,
    ensures
        0 <= filled_cells(h, width) <= width,
        h == 10000 ==> filled_cells(h, width) == width,
        h == 0 ==> filled_cells(h, width) == 0,
{
    assert(0 <= 2 * h * width) by (nonlinear_arith)
        requires 0 <= h, 0 <= width;
    assert(2 * h * width <= 20000 * width) by (nonlinear_arith)
        requires h <= 10000, 0 <= width;
    assert((20000 * width + 10000) / 20000 == width) by (nonlinear_arith)
        requires 0 <= width;
    assert((2 * h * width + 10000) / 20000 <= (20000 * width + 10000) / 20000) by (nonlinear_arith)
        requires 2 * h * width <= 20000 * width;
    if h == 10000 {
        assert(2 * h * width == 20000 * width) by (nonlinear_arith)
            requires h == 10000;
    }
    if h == 0 {
        assert(2 * h * width == 0) by (nonlinear_arith)
            requires h == 0;
    }
}


/// Whole seconds of a millisecond timestamp, rounded toward zero.
pub open spec fn reset_seconds(ms: int) -> int {
    if ms >= 0 { ms / 1000 } else { -((-ms) / 1000) }
}

/// Two decimal digits of a number below one hundred.
pub open spec fn two_digits(n: int) -> Seq<char> {
    seq![digit_char_of(n / 10), digit_char_of(n % 10)]
}

pub open spec fn digit_char_of(n: int) -> char {
    crate::text::digit_char(n as nat)
}

/// "HH:MM:SS" of the second of the day `t` (Euclidean remainder by a day).
pub open spec fn clock_text(t: int) -> Seq<char> {
    let d = t % 86400;
    two_digits(d / 3600) + seq![':'] + two_digits((d % 3600) / 60) + seq![':'] + two_digits(d % 60)
}

/// The time left until a reset at `secs` (seconds) seen at `now_ms`
/// (milliseconds): "in Xs", "in Xm Ys", "in Xh Ym", or "passed".
pub open spec fn countdown_text(secs: int, now_ms: int) -> Seq<char> {
    if secs * 1000 > now_ms {
        let d = (secs * 1000 - now_ms) / 1000;
        if d < 60 {
            seq!['i', 'n', ' '] + decimal(d as nat) + seq!['s']
        } else if d < 3600 {
            seq!['i', 'n', ' '] + decimal((d / 60) as nat) + seq!['m', ' '] + decimal((d % 60) as nat) + seq!['s']
        } else {
            seq!['i', 'n', ' '] + decimal((d / 3600) as nat) + seq!['h', ' '] + decimal(((d % 3600) / 60) as nat)
                + seq!['m']
        }
    } else {
        seq!['p', 'a', 's', 's', 'e', 'd']
    }
}

/// "Resets: HH:MM:SS (countdown)" for a reset at `ms`, seen at `now_ms`, in a
/// time zone `offset` seconds east of UTC.
pub open spec fn reset_text(ms: int, now_ms: int, offset: int) -> Seq<char> {
    let secs = reset_seconds(ms);
    seq!['R', 'e', 's', 'e', 't', 's', ':', ' '] + clock_text(secs + offset) + seq![' ', '(']
        + countdown_text(secs, now_ms) + seq![')']
}

/// Four spaces of indentation.
pub open spec fn indent() -> Seq<char> {
    seq![' ', ' ', ' ', ' ']
}

/// The text of the optional "number" tag.
pub open spec fn number_text(n: Option<i32>) -> Seq<char> {
    match n {
        Some(v) => signed_decimal(v as int),
        None => not_available(),
    }
}

/// The width of the bar in a limit's title line.
pub open spec fn title_bar_width() -> int {
    20
}

/// "{type}: {current}/{usage} {bar} ({number})".
pub open spec fn title_line(l: Limit) -> Seq<char> {
    l.limit_type@ + seq![':', ' '] + int_text(l.current_value) + seq!['/'] + int_text(l.usage) + seq![' ']
        + bar_text(l.percentage, title_bar_width()) + seq![' ', '('] + number_text(l.number) + seq![')']
}

/// "    Remaining: {remaining}".
pub open spec fn remaining_line(l: Limit) -> Seq<char> {
    indent() + seq!['R', 'e', 'm', 'a', 'i', 'n', 'i', 'n', 'g', ':', ' '] + int_text(l.remaining)
}

/// "      - {model}: {usage}", the model "unknown" when absent.
pub open spec fn detail_line(d: UsageDetail) -> Seq<char> {
    let model = match d.model_code {
        Some(m) => m@,
        None => seq!['u', 'n', 'k', 'n', 'o', 'w', 'n'],
    };
    indent() + seq![' ', ' ', '-', ' '] + model + seq![':', ' '] + int_text(d.usage)
}

/// The lines that list the per-model details: none when there are none.
pub open spec fn detail_lines(ds: Seq<UsageDetail>) -> Seq<Seq<char>> {
    if ds.len() == 0 {
        Seq::empty()
    } else {
        seq![indent() + seq!['D', 'e', 't', 'a', 'i', 'l', 's', ':']] + ds.map_values(|d: UsageDetail| detail_line(d))
    }
}

/// The lines of a limit entry, given the reset text when one is shown.
pub open spec fn limit_lines(l: Limit, reset: Option<Seq<char>>) -> Seq<Seq<char>> {
    let head = seq![title_line(l), remaining_line(l)];
    let with_reset = match reset {
        Some(t) => head.push(indent() + t),
        None => head,
    };
    with_reset + detail_lines(l.usage_details@)
}

/// The text views of a list of strings.
pub open spec fn texts(v: Seq<String>) -> Seq<Seq<char>> {
    v.map_values(|s: String| s@)
}


proof fn lemma_grouped_prefix_of_take(d: Seq<char>, i: int)
    requires
        d.len() > 3,
        0 <= i <= d.len() - 3,
    ensures
        grouped_prefix(d, i) == grouped_prefix(d.take(d.len() - 3), i),
    decreases i,
{
    if i > 0 {
        lemma_grouped_prefix_of_take(d, i - 1);
        let n = d.len() as int;
        assert((n - (i - 1)) % 3 == (n - 3 - (i - 1)) % 3);
    }
}

proof fn lemma_grouped_prefix_short(d: Seq<char>, i: int)
    requires
        d.len() <= 3,
        0 <= i <= d.len(),
    ensures
        grouped_prefix(d, i) == d.take(i),
    decreases i,
{
    if i > 0 {
        lemma_grouped_prefix_short(d, i - 1);
        assert(d.take(i) =~= d.take(i - 1).push(d[i - 1]));
    }
}

/// Digit grouping works in runs of three from the right: a run of at most
/// three digits stands alone, and a longer run is the grouping of all but
/// its last three digits, a single space, and those three digits.
pub proof fn lemma_grouping_from_right(d: Seq<char>)
    ensures
        d.len() <= 3 ==> grouped(d) == d,
        d.len() > 3 ==> grouped(d) == grouped(d.take(d.len() - 3)) + seq![' '] + d.skip(d.len() - 3),
{
    let n = d.len() as int;
    if n <= 3 {
        lemma_grouped_prefix_short(d, n);
        assert(d.take(n) =~= d);
    } else {
        lemma_grouped_prefix_of_take(d, n - 3);
        assert(d.take(n - 3).len() == n - 3);
        assert(separator_before(n, n - 3));
        assert(!separator_before(n, n - 2));
        assert(!separator_before(n, n - 1));
        let g = grouped_prefix(d, n - 3);
        assert(grouped_prefix(d, n - 2) == g.push(' ').push(d[n - 3]));
        assert(grouped_prefix(d, n - 1) == g.push(' ').push(d[n - 3]).push(d[n - 2]));
        assert(grouped_prefix(d, n) == g.push(' ').push(d[n - 3]).push(d[n - 2]).push(d[n - 1]));
        assert(grouped_prefix(d, n) =~= g + seq![' '] + d.skip(n - 3));
    }
}


/// The cells of a bar.
pub open spec fn bar_cells(pct: Option<i64>, width: int) -> Seq<char> {
    let f = filled_cells(clamped_hundredths(pct), width);
    repeat_char(full_cell(), f) + repeat_char(empty_cell(), width - f)
}

/// A bar always holds exactly `width` cells between its brackets, each
/// filled or empty: all filled from 100% up, all empty at 0% or below or
/// when the percentage is absent.
pub proof fn lemma_bar_shape(pct: Option<i64>, width: int)
    requires
        0 <= width,
    ensures
        bar_text(pct, width).take(width + 1) == seq!['['] + bar_cells(pct, width),
        bar_text(pct, width)[width + 1] == ']',
        bar_cells(pct, width).len() == width,
        forall|i: int| 0 <= i < width ==> #[trigger] bar_cells(pct, width)[i] == full_cell()
            || bar_cells(pct, width)[i] == empty_cell(),
        (pct is Some && pct->0 >= 10000) ==> bar_cells(pct, width) == repeat_char(full_cell(), width),
        (pct is None || pct->0 <= 0) ==> bar_cells(pct, width) == repeat_char(empty_cell(), width),
{
    let h = clamped_hundredths(pct);
    lemma_filled_cells_bounds(h, width);
    let f = filled_cells(h, width);
    let cells = bar_cells(pct, width);
    assert(cells.len() == width);
    assert(bar_text(pct, width).take(width + 1) =~= seq!['['] + cells);
    if pct is Some && pct->0 >= 10000 {
        assert(cells =~= repeat_char(full_cell(), width));
    }
    if pct is None || pct->0 <= 0 {
        assert(cells =~= repeat_char(empty_cell(), width));
    }
}


/// A text with its spaces removed.
pub open spec fn without_spaces(s: Seq<char>) -> Seq<char>
    decreases s.len(),
{
    if s.len() == 0 {
        s
    } else if s.last() == ' ' {
        without_spaces(s.drop_last())
    } else {
        without_spaces(s.drop_last()).push(s.last())
    }
}

/// No space at either end, and never two spaces side by side.
pub open spec fn well_spaced(g: Seq<char>) -> bool {
    &&& g.len() > 0 ==> g[0] != ' ' && g.last() != ' '
    &&& forall|k: int| 0 <= k < g.len() - 1 && #[trigger] g[k] == ' ' ==> g[k + 1] != ' '
}

proof fn lemma_without_spaces_concat(a: Seq<char>, b: Seq<char>)
    ensures
        without_spaces(a + b) == without_spaces(a) + without_spaces(b),
    decreases b.len(),
{
    if b.len() == 0 {
        assert(a + b =~= a);
        assert(without_spaces(b) =~= Seq::<char>::empty());
        assert(without_spaces(a) + without_spaces(b) =~= without_spaces(a));
    } else {
        lemma_without_spaces_concat(a, b.drop_last());
        assert((a + b).drop_last() =~= a + b.drop_last());
        assert((a + b).last() == b.last());
        if b.last() != ' ' {
            assert(without_spaces(a) + without_spaces(b) =~= (without_spaces(a) + without_spaces(b.drop_last())).push(b.last()));
        }
    }
}

proof fn lemma_decimal_has_no_space(n: nat)
    ensures
        decimal(n).len() > 0,
        forall|k: int| 0 <= k < decimal(n).len() ==> #[trigger] decimal(n)[k] != ' ',
    decreases n,
{
    if n >= 10 {
        lemma_decimal_has_no_space(n / 10);
        assert forall|k: int| 0 <= k < decimal(n).len() implies #[trigger] decimal(n)[k] != ' ' by {
            if k < decimal(n / 10).len() {
                assert(decimal(n)[k] == decimal(n / 10)[k]);
            }
        }
    }
}

proof fn lemma_grouped_prefix_shape(d: Seq<char>, i: int)
    requires
        0 <= i <= d.len(),
        forall|k: int| 0 <= k < d.len() ==> #[trigger] d[k] != ' ',
    ensures
        without_spaces(grouped_prefix(d, i)) == d.take(i),
        grouped_prefix(d, i).len() >= i,
        i > 0 ==> grouped_prefix(d, i).last() == d[i - 1] && grouped_prefix(d, i)[0] == d[0],
        well_spaced(grouped_prefix(d, i)),
    decreases i,
{
    if i > 0 {
        lemma_grouped_prefix_shape(d, i - 1);
        let g = grouped_prefix(d, i - 1);
        let c = d[i - 1];
        let h = grouped_prefix(d, i);
        assert(g.push(c).drop_last() =~= g);
        assert(d.take(i) =~= d.take(i - 1).push(c));
        if separator_before(d.len() as int, i - 1) {
            assert(h == g.push(' ').push(c));
            assert(g.push(' ').drop_last() =~= g);
            assert(without_spaces(g.push(' ')) == without_spaces(g));
            assert(h.drop_last() =~= g.push(' '));
            assert(g.len() > 0);
            assert(h[0] == g[0]);
            assert forall|k: int| 0 <= k < h.len() - 1 && #[trigger] h[k] == ' ' implies h[k + 1] != ' ' by {
                if k < g.len() - 1 {
                    assert(h[k] == g[k] && h[k + 1] == g[k + 1]);
                } else if k == g.len() - 1 {
                    assert(h[k] == g.last());
                }
            }
        } else {
            assert(h == g.push(c));
            assert(h.drop_last() =~= g);
            if i - 1 > 0 {
                assert(h[0] == g[0]);
            }
            assert forall|k: int| 0 <= k < h.len() - 1 && #[trigger] h[k] == ' ' implies h[k + 1] != ' ' by {
                if k < g.len() - 1 {
                    assert(h[k] == g[k] && h[k + 1] == g[k + 1]);
                } else {
                    assert(h[k] == g.last());
                }
            }
        }
    }
}

/// Grouped integer text has no space at either end and never two spaces in
/// a row, and removing its spaces gives back the plain decimal text.
pub proof fn lemma_grouped_int_shape(v: int)
    ensures
        without_spaces(grouped_int(v)) == signed_decimal(v),
        well_spaced(grouped_int(v)),
{
    let d = if v < 0 { decimal((-v) as nat) } else { decimal(v as nat) };
    lemma_decimal_has_no_space(if v < 0 { (-v) as nat } else { v as nat });
    lemma_grouped_prefix_shape(d, d.len() as int);
    assert(d.take(d.len() as int) =~= d);
    let g = grouped(d);
    if v < 0 {
        lemma_without_spaces_concat(seq!['-'], g);
        let m = seq!['-'];
        assert(m.len() == 1 && m.last() == '-');
        assert(m.drop_last() =~= Seq::<char>::empty());
        assert(without_spaces(m.drop_last()) == m.drop_last());
        assert(without_spaces(m) == without_spaces(m.drop_last()).push('-'));
        assert(without_spaces(m) =~= m);
        let h = seq!['-'] + g;
        assert(h[0] == '-');
        assert(h.last() == g.last());
        assert forall|k: int| 0 <= k < h.len() - 1 && #[trigger] h[k] == ' ' implies h[k + 1] != ' ' by {
            assert(k >= 1);
            assert(h[k] == g[k - 1] && h[k + 1] == g[k]);
        }
    }
}

/// The whole percent of `h` hundredths of a percent, exact halves rounded
/// to even.
pub fn round_percent(h: u64) -> (r: u64)
    ensures
        r as int == whole_percent(h as int),
{
    let q = h / 100;
    let rem = h % 100;
    if rem > 50 || (rem == 50 && q % 2 == 1) { q + 1 } else { q }
}

/// Formatting helpers for the dashboard.
pub struct Format;

impl Format {
    /// Formats an optional integer with a space between groups of three
    /// digits, or "N/A" when the value is absent.
    pub fn format_int(val: Option<i64>) -> (r: String)
        ensures
            r@ == int_text(val),
    {
        match val {
            Some(v) => {
                let digits = decimal_chars(magnitude(v));
                let n = digits.len();
                let mut s = String::new();
                if v < 0 {
                    push_char(&mut s, '-');
                }
                let ghost start = s@;
                let mut i: usize = 0;
                while i < n
                    invariant
                        n == digits@.len(),
                        i <= n,
                        s@ == start + grouped_prefix(digits@, i as int),
                    decreases n - i,
                {
                    if i > 0 && (n - i) % 3 == 0 {
                        push_char(&mut s, ' ');
                    }
                    push_char(&mut s, digits[i]);
                    i = i + 1;
                    assert(s@ =~= start + grouped_prefix(digits@, i as int));
                }
                assert(s@ =~= int_text(val));
                s
            }
            None => {
                let s = String::from_str("N/A");
                proof { reveal_strlit("N/A"); }
                assert(s@ =~= not_available());
                s
            }
        }
    }

    /// A bar of `width` cells, filled in proportion to the percentage
    /// (hundredths of a percent, clamped to 0..=100 percent; absent counts as
    /// zero), followed by the rounded whole percent.
    pub fn progress_bar(percentage: Option<i64>, width: usize) -> (r: String)
        ensures
            r@ == bar_text(percentage, width as int),
    {
        let h: u64 = match percentage {
            Some(p) => if p < 0 { 0 } else if p > 10000 { 10000 } else { p as u64 },
            None => 0,
        };
        proof { lemma_filled_cells_bounds(h as int, width as int); }
        let wide: u128 = 2 * (h as u128) * (width as u128) + 10000;
        let filled: usize = (wide / 20000) as usize;
        let mut s = String::new();
        push_char(&mut s, '[');
        let mut i: usize = 0;
        while i < filled
            invariant
                i <= filled <= width,
                s@ == seq!['['] + repeat_char(full_cell(), i as int),
            decreases filled - i,
        {
            push_char(&mut s, '\u{2588}');
            i = i + 1;
            assert(s@ =~= seq!['['] + repeat_char(full_cell(), i as int));
        }
        let ghost head = s@;
        let mut j: usize = filled;
        while j < width
            invariant
                filled <= j <= width,
                s@ == head + repeat_char(empty_cell(), j - filled),
            decreases width - j,
        {
            push_char(&mut s, '\u{2591}');
            j = j + 1;
            assert(s@ =~= head + repeat_char(empty_cell(), j - filled));
        }
        push_char(&mut s, ']');
        push_char(&mut s, ' ');
        push_decimal(&mut s, round_percent(h));
        push_char(&mut s, '%');
        assert(s@ =~= bar_text(percentage, width as int));
        s
    }

    fn two_digit_text(s: &mut String, n: u64)
        requires
            n < 100,
        ensures
            final(s)@ == old(s)@ + two_digits(n as int),
    {
        push_char(s, crate::text::digit_to_char(n / 10));
        push_char(s, crate::text::digit_to_char(n % 10));
        assert(final(s)@ =~= old(s)@ + two_digits(n as int));
    }

    /// Appends "HH:MM:SS" of the second of the day `day`.
    fn push_clock(s: &mut String, day: u64)
        requires
            day < 86400,
        ensures
            final(s)@ == old(s)@ + clock_text(day as int),
    {
        Self::two_digit_text(s, day / 3600);
        push_char(s, ':');
        Self::two_digit_text(s, (day % 3600) / 60);
        push_char(s, ':');
        Self::two_digit_text(s, day % 60);
        assert((day as int) % 86400 == day as int);
        assert(final(s)@ =~= old(s)@ + clock_text(day as int));
    }

    /// Appends the countdown to a reset at `secs`, seen at `now_ms`.
    #[verifier::rlimit(30)]
    fn push_countdown(s: &mut String, secs: i64, now_ms: i64)
        requires
            -9223372036854775 <= secs <= 9223372036854775,
        ensures
            final(s)@ == old(s)@ + countdown_text(secs as int, now_ms as int),
    {
        let reset_ms: i128 = (secs as i128) * 1000;
        if reset_ms > now_ms as i128 {
            let d: u64 = ((reset_ms - now_ms as i128) / 1000) as u64;
            push_str(s, "in ");
            proof { reveal_strlit("in "); }
            if d < 60 {
                push_decimal(s, d);
                push_char(s, 's');
            } else if d < 3600 {
                push_decimal(s, d / 60);
                push_char(s, 'm');
                push_char(s, ' ');
                push_decimal(s, d % 60);
                push_char(s, 's');
            } else {
                push_decimal(s, d / 3600);
                push_char(s, 'h');
                push_char(s, ' ');
                push_decimal(s, (d % 3600) / 60);
                push_char(s, 'm');
            }
        } else {
            push_str(s, "passed");
            proof { reveal_strlit("passed"); }
        }
        assert(final(s)@ =~= old(s)@ + countdown_text(secs as int, now_ms as int));
    }

    /// Whole seconds of a millisecond timestamp, rounded toward zero.
    fn seconds_of(ms: i64) -> (r: i64)
        ensures
            r as int == reset_seconds(ms as int),
            -9223372036854775 <= r <= 9223372036854775,
    {
        if ms >= 0 { ms / 1000 } else { -((magnitude(ms) / 1000) as i64) }
    }

    /// The second of the day, local time, of the instant `secs`.
    fn second_of_day(secs: i64, offset_secs: i32) -> (r: u64)
        requires
            -9223372036854775 <= secs <= 9223372036854775,
            -86400 < offset_secs < 86400,
        ensures
            r as int == (secs + offset_secs) % 86400,
            r < 86400,
    {
        let local: i64 = secs + offset_secs as i64;
        if local >= 0 {
            (local % 86400) as u64
        } else {
            86399 - (((-(local + 1)) % 86400) as u64)
        }
    }

    /// The reset line for a reset at `ms` milliseconds since the epoch, seen
    /// at `now_ms`, in a time zone `offset_secs` seconds east of UTC.
    #[verifier::rlimit(30)]
    pub fn format_reset_time_at(ms: i64, now_ms: i64, offset_secs: i32) -> (r: String)
        requires
            -86400 < offset_secs < 86400,
        ensures
            r@ == reset_text(ms as int, now_ms as int, offset_secs as int),
    {
        let secs = Self::seconds_of(ms);
        let day = Self::second_of_day(secs, offset_secs);
        let mut s = String::from_str("Resets: ");
        proof { reveal_strlit("Resets: "); }
        Self::push_clock(&mut s, day);
        push_char(&mut s, ' ');
        push_char(&mut s, '(');
        Self::push_countdown(&mut s, secs, now_ms);
        push_char(&mut s, ')');
        assert(clock_text(day as int) =~= clock_text(secs + offset_secs));
        assert(s@ =~= reset_text(ms as int, now_ms as int, offset_secs as int));
        s
    }

    fn detail_text(d: &UsageDetail) -> (r: String)
        ensures
            r@ == detail_line(*d),
    {
        let mut line = String::from_str("      - ");
        proof { reveal_strlit("      - "); reveal_strlit("unknown"); reveal_strlit(": "); }
        match &d.model_code {
            Some(m) => push_str(&mut line, m.as_str()),
            None => push_str(&mut line, "unknown"),
        }
        push_str(&mut line, ": ");
        push_str(&mut line, &Self::format_int(d.usage));
        assert(line@ =~= detail_line(*d));
        line
    }

    /// The reset line at the current time and local time zone, or `None`
    /// when the timestamp names no representable instant.
    fn format_reset_time(ms: i64) -> (r: Option<String>)
        ensures
            r is Some <==> utc_seconds_valid(reset_seconds(ms as int)),
            r is Some ==> exists|now: int, off: int|
                -86400 < off < 86400 && r->0@ == reset_text(ms as int, now, off),
    {
        let secs = Self::seconds_of(ms);
        if timestamp_valid(secs) {
            let offset = local_offset_at(secs);
            let now = now_millis();
            Some(Self::format_reset_time_at(ms, now, offset))
        } else {
            None
        }
    }

    /// The lines of a limit entry, given the reset text to show, if any.
    pub fn format_limit_with(limit: &Limit, reset: Option<String>) -> (r: Vec<String>)
        ensures
            texts(r@) == limit_lines(*limit, match reset { Some(t) => Some(t@), None => None }),
    {
        let mut lines: Vec<String> = Vec::new();
        let mut title = limit.limit_type.clone();
        push_str(&mut title, ": ");
        push_str(&mut title, &Self::format_int(limit.current_value));
        push_char(&mut title, '/');
        push_str(&mut title, &Self::format_int(limit.usage));
        push_char(&mut title, ' ');
        push_str(&mut title, &Self::progress_bar(limit.percentage, 20));
        push_str(&mut title, " (");
        match limit.number {
            Some(n) => push_str(&mut title, &i64_text(n as i64)),
            None => push_str(&mut title, "N/A"),
        }
        push_char(&mut title, ')');
        proof { reveal_strlit(": "); reveal_strlit(" ("); reveal_strlit("N/A"); }
        assert(title@ =~= title_line(*limit));
        lines.push(title);
        let mut rem = String::from_str("    Remaining: ");
        proof { reveal_strlit("    Remaining: "); }
        push_str(&mut rem, &Self::format_int(limit.remaining));
        assert(rem@ =~= remaining_line(*limit));
        lines.push(rem);
        let ghost rv = match &reset { Some(t) => Some(t@), None => None };
        assert(texts(lines@) =~= seq![title_line(*limit), remaining_line(*limit)]);
        match reset {
            Some(t) => {
                let mut line = String::from_str("    ");
                proof { reveal_strlit("    "); }
                push_str(&mut line, t.as_str());
                assert(line@ =~= indent() + t@);
                let ghost prev = lines@;
                lines.push(line);
                assert(texts(lines@) =~= texts(prev).push(indent() + t@));
            }
            None => {}
        }
        let ghost head = texts(lines@);
        assert(head == match rv { Some(t) => seq![title_line(*limit), remaining_line(*limit)].push(indent() + t), None => seq![title_line(*limit), remaining_line(*limit)] });
        let n = limit.usage_details.len();
        if n > 0 {
            let details = String::from_str("    Details:");
            proof { reveal_strlit("    Details:"); }
            assert(details@ =~= indent() + seq!['D', 'e', 't', 'a', 'i', 'l', 's', ':']);
            lines.push(details);
            assert(texts(lines@) =~= head.push(indent() + seq!['D', 'e', 't', 'a', 'i', 'l', 's', ':']));
            let ghost base = texts(lines@);
            let mut i: usize = 0;
            while i < n
                invariant
                    n == limit.usage_details@.len(),
                    i <= n,
                    texts(lines@) == base + limit.usage_details@.subrange(0, i as int).map_values(
                        |d: UsageDetail| detail_line(d),
                    ),
                decreases n - i,
            {
                let d = &limit.usage_details[i];
                let line = Self::detail_text(d);
                let ghost prev = lines@;
                lines.push(line);
                assert(texts(lines@) =~= texts(prev).push(detail_line(*d)));
                i = i + 1;
                assert(limit.usage_details@.subrange(0, i as int) =~= limit.usage_details@.subrange(0, i - 1).push(*d));
                assert(texts(lines@) =~= base + limit.usage_details@.subrange(0, i as int).map_values(
                    |d: UsageDetail| detail_line(d),
                ));
            }
            assert(limit.usage_details@.subrange(0, n as int) =~= limit.usage_details@);
        } else {
            assert(texts(lines@) =~= head + detail_lines(limit.usage_details@));
        }
        assert(texts(lines@) =~= limit_lines(*limit, rv));
        lines
    }

    /// The lines of a limit entry: title, remaining count, the reset time
    /// when one is given and representable, and the per-model details.
    pub fn format_limit(limit: &Limit) -> (r: Vec<String>)
        ensures
            exists|reset: Option<Seq<char>>|
                texts(r@) == limit_lines(*limit, reset) && (reset is Some <==> match limit.next_reset_time {
                    Some(ms) => utc_seconds_valid(reset_seconds(ms as int)),
                    None => false,
                }) && match (reset, limit.next_reset_time) {
                    (Some(t), Some(ms)) => exists|now: int, off: int|
                        -86400 < off < 86400 && t == reset_text(ms as int, now, off),
                    _ => true,
                },
    {
        let reset = match limit.next_reset_time {
            Some(ms) => Self::format_reset_time(ms),
            None => None,
        };
        let r = Self::format_limit_with(limit, reset);
        assert(texts(r@) == limit_lines(*limit, match reset { Some(t) => Some(t@), None => None }));
        r
    }
}

} // verus!
