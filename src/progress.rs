//! The year's progress as a percentage and as a bar of glyphs.

use vstd::prelude::*;
use crate::calendar::{CalendarDate, local_today, ordinal0};
use crate::laws::lemma_percent_bounds;

verus! {

/// Glyph of a filled cell of the bar.
pub const SELECT_SYMBOL: &'static str = "\u{2593}";

/// Glyph of an empty cell of the bar.
pub const BACK_SYMBOL: &'static str = "\u{2592}";

/// Divisor of the percentage: a year is taken to have this many days.
pub const YEAR_DAYS: i64 = 365;

/// Number of cells in the bar.
pub const LINE_LEN: i32 = 20;

/// The character of `SELECT_SYMBOL`.
pub open spec fn filled_glyph() -> char {
    '\u{2593}'
}

/// The character of `BACK_SYMBOL`.
pub open spec fn empty_glyph() -> char {
    '\u{2592}'
}

/// Percentage of a fixed 365-day year that `days` whole days make, truncated.
pub open spec fn percent_of_days(days: int) -> int {
    (days * 100) / 365
}

/// Index of the last filled cell of a bar of `len` cells at `percent`.
pub open spec fn fill_count(len: int, percent: int) -> int {
    (len * percent) / 100
}

/// A bar of `len` cells whose cells at indices `0..=till` are filled.
pub open spec fn bar_cells(len: int, till: int) -> Seq<char> {
    Seq::new(len as nat, |i: int| if i <= till { filled_glyph() } else { empty_glyph() })
}

/// The percentage reported on `date`.
pub open spec fn percent_on(date: CalendarDate) -> int {
    percent_of_days(date.days_since_new_year())
}

/// The bar reported on `date`.
pub open spec fn bar_on(date: CalendarDate) -> Seq<char> {
    bar_cells(LINE_LEN as int, fill_count(LINE_LEN as int, percent_on(date)))
}

/// The percentage of the year that has passed on `date`, and the index of
/// the last filled cell of a bar of `len` cells.
pub fn count_percent(len: i32, date: &CalendarDate) -> (r: (i32, i64))
    requires
        date.wf(),
        0 <= len,
        len * 100 <= i32::MAX,
    ensures
        r.1 == percent_on(*date),
        r.0 == fill_count(len as int, r.1 as int),
{
    proof { lemma_percent_bounds(*date); }
    let days = ordinal0(date) as i64;
    let percent = (days * 100) / YEAR_DAYS;
    assert(0 <= len * percent <= len * 100) by (nonlinear_arith)
        requires 0 <= percent <= 100, 0 <= len;
    let position = (len * (percent as i32)) / 100;
    (position, percent)
}

/// A bar of `len` cells, filled at indices `0..=till` and empty after.
pub fn render_bar(len: i32, till: i32) -> (r: String)
    requires
        0 <= len,
    ensures
        r@ == bar_cells(len as int, till as int),
{
    let mut line = String::new();
    let mut n: i32 = 0;
    while n < len
        invariant
            0 <= n <= len,
            line@ == bar_cells(n as int, till as int),
        decreases len - n,
    {
        proof {
            reveal_strlit("\u{2593}");
            reveal_strlit("\u{2592}");
        }
        if n > till {
            line.append(BACK_SYMBOL);
        } else {
            line.append(SELECT_SYMBOL);
        }
        assert(line@ =~= bar_cells(n + 1, till as int));
        n = n + 1;
    }
    line
}

/// The bar and the percentage for `date`.
pub fn progress_on(date: &CalendarDate) -> (r: (String, i64))
    requires
        date.wf(),
    ensures
        r.1 == percent_on(*date),
        r.0@ == bar_on(*date),
        r.0@.len() == LINE_LEN,
{
    let (till, percent) = count_percent(LINE_LEN, date);
    (render_bar(LINE_LEN, till), percent)
}

/// The bar and the percentage for today's date in the local time zone.
pub fn progress() -> (r: (String, i64))
    ensures
        exists|d: CalendarDate| d.wf() && r.1 == percent_on(d) && r.0@ == bar_on(d),
        0 <= r.1 <= 100,
        r.0@.len() == LINE_LEN,
{
    let today = local_today();
    proof { lemma_percent_bounds(today); }
    progress_on(&today)
}

} // verus!
