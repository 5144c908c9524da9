//! Facts about the reported percentage and bar that hold for every date.

use vstd::prelude::*;
use crate::calendar::{CalendarDate, days_before_month, days_in_month, is_leap_year};
use crate::progress::{
    LINE_LEN, bar_cells, bar_on, empty_glyph, fill_count, filled_glyph, percent_of_days,
    percent_on,
};

verus! {

/// Number of filled glyphs in `s`.
pub open spec fn count_filled(s: Seq<char>) -> nat
    decreases s.len(),
{
    if s.len() == 0 {
        0
    } else {
        count_filled(s.drop_last()) + if s.last() == filled_glyph() { 1nat } else { 0nat }
    }
}

/// The days since January 1 never exceed 365, so the percentage lies in
/// `0..=100` on every date.
pub proof fn lemma_percent_bounds(date: CalendarDate)
    requires
        date.wf(),
    ensures
        0 <= date.days_since_new_year() <= 365,
        0 <= percent_on(date) <= 100,
{
    let days = date.days_since_new_year();
    assert(0 <= days * 100 <= 36500) by (nonlinear_arith)
        requires
            0 <= days <= 365,
    ;
}

/// On December 31 the percentage is 99 in a common year and 100 in a leap
/// year, since the divisor is always 365.
pub proof fn lemma_year_end_percent(date: CalendarDate)
    requires
        date.wf(),
        date.month == 12,
        date.day == 31,
    ensures
        percent_on(date) == if is_leap_year(date.year as int) { 100int } else { 99int },
{
}

/// On January 1 the percentage is 0 and only the first cell is filled.
pub proof fn lemma_new_year_percent(date: CalendarDate)
    requires
        date.wf(),
        date.month == 1,
        date.day == 1,
    ensures
        percent_on(date) == 0,
        bar_on(date) == bar_cells(LINE_LEN as int, 0),
{
}

/// The bar has exactly `LINE_LEN` cells on every date.
pub proof fn lemma_bar_length(date: CalendarDate)
    requires
        date.wf(),
    ensures
        bar_on(date).len() == LINE_LEN,
{
}

/// A bar of `len` cells filled through index `till` holds `till + 1` filled
/// glyphs, at most `len` and at least none.
pub proof fn lemma_bar_cells_filled(len: nat, till: int)
    requires
        -1 <= till,
    ensures
        count_filled(bar_cells(len as int, till)) == if till + 1 < len { till + 1 } else { len as int },
    decreases len,
{
    if len > 0 {
        let s = bar_cells(len as int, till);
        assert(s.drop_last() =~= bar_cells(len - 1, till));
        lemma_bar_cells_filled((len - 1) as nat, till);
        assert(filled_glyph() != empty_glyph());
    }
}

/// The bar on `date` has `min(fill + 1, LINE_LEN)` filled glyphs, where
/// `fill` is `(LINE_LEN * percent) / 100`.
pub proof fn lemma_filled_count(date: CalendarDate)
    requires
        date.wf(),
    ensures
        fill_count(LINE_LEN as int, percent_on(date)) == (20 * percent_on(date)) / 100,
        count_filled(bar_on(date)) == if fill_count(LINE_LEN as int, percent_on(date)) + 1 < 20 {
            fill_count(LINE_LEN as int, percent_on(date)) + 1
        } else {
            20
        },
{
    lemma_percent_bounds(date);
    let p = percent_on(date);
    assert(0 <= 20 * p) by (nonlinear_arith)
        requires
            0 <= p,
    ;
    lemma_bar_cells_filled(20, fill_count(20, p));
}

/// Two readings of the same calendar day report the same percentage and bar.
pub proof fn lemma_same_day_same_output(d1: CalendarDate, d2: CalendarDate)
    requires
        d1.wf(),
        d2.wf(),
        d1.year == d2.year,
        d1.month == d2.month,
        d1.day == d2.day,
    ensures
        percent_on(d1) == percent_on(d2),
        bar_on(d1) == bar_on(d2),
{
}

/// Within one year, a later date has at least as many days since January 1.
pub proof fn lemma_days_monotone(d1: CalendarDate, d2: CalendarDate)
    requires
        d1.wf(),
        d2.wf(),
        d1.year == d2.year,
        d1.before(&d2),
    ensures
        d1.days_since_new_year() < d2.days_since_new_year(),
{
    let y = d1.year as int;
    if d1.month < d2.month {
        assert(days_before_month(y, d1.month as int) + days_in_month(y, d1.month as int)
            <= days_before_month(y, d2.month as int));
    }
}

/// Within one year, the percentage never decreases from one date to a later one.
pub proof fn lemma_percent_monotone(d1: CalendarDate, d2: CalendarDate)
    requires
        d1.wf(),
        d2.wf(),
        d1.year == d2.year,
        d1.before(&d2),
    ensures
        percent_on(d1) <= percent_on(d2),
{
    lemma_days_monotone(d1, d2);
    let a = d1.days_since_new_year();
    let b = d2.days_since_new_year();
    lemma_percent_bounds(d1);
    assert(percent_of_days(a) <= percent_of_days(b)) by (nonlinear_arith)
        requires
            0 <= a <= b,
            percent_of_days(a) == (a * 100) / 365,
            percent_of_days(b) == (b * 100) / 365,
    ;
}

} // verus!
