use year_progress::calendar::{leap_year, month_length, CalendarDate, MAX_YEAR, MIN_YEAR};
use year_progress::progress::{count_percent, progress, progress_on, render_bar, LINE_LEN};

const FILLED: char = '\u{2593}';
const EMPTY: char = '\u{2592}';

fn date(year: i32, month: u32, day: u32) -> CalendarDate {
    CalendarDate::new(year, month, day).expect("valid date")
}

fn expected_bar(filled: usize) -> String {
    let mut s = String::new();
    for i in 0..20 {
        s.push(if i < filled { FILLED } else { EMPTY });
    }
    s
}

fn all_dates(year: i32) -> Vec<CalendarDate> {
    let mut v = Vec::new();
    for m in 1..=12u32 {
        for d in 1..=month_length(year, m) {
            v.push(date(year, m, d));
        }
    }
    v
}

#[test]
fn new_year_gives_zero_and_one_filled_cell() {
    let (bar, percent) = progress_on(&date(2024, 1, 1));
    assert_eq!(percent, 0);
    assert_eq!(bar, "▓▒▒▒▒▒▒▒▒▒▒▒▒▒▒▒▒▒▒▒");
}

#[test]
fn day_one_hundred_of_common_year() {
    let d = date(2023, 4, 10);
    assert_eq!(count_percent(20, &d), (5, 27));
    let (bar, percent) = progress_on(&d);
    assert_eq!(percent, 27);
    assert_eq!(bar, expected_bar(6));
}

#[test]
fn year_end_common_year_is_99() {
    let (bar, percent) = progress_on(&date(2023, 12, 31));
    assert_eq!(percent, 99);
    assert_eq!(count_percent(20, &date(2023, 12, 31)), (19, 99));
    assert_eq!(bar, expected_bar(20));
}

#[test]
fn year_end_leap_year_is_100() {
    let (bar, percent) = progress_on(&date(2024, 12, 31));
    assert_eq!(percent, 100);
    assert_eq!(count_percent(20, &date(2024, 12, 31)), (20, 100));
    assert_eq!(bar, expected_bar(20));
}

#[test]
fn leap_day_is_handled() {
    let d = date(2024, 2, 29);
    // 59 days elapsed: 59 * 100 / 365 = 16, 20 * 16 / 100 = 3.
    assert_eq!(count_percent(20, &d), (3, 16));
    assert_eq!(progress_on(&d), (expected_bar(4), 16));
}

#[test]
fn count_percent_other_lengths() {
    let d = date(2023, 7, 2); // 182 days elapsed: percent 49
    assert_eq!(count_percent(20, &d), (9, 49));
    assert_eq!(count_percent(10, &d), (4, 49));
    assert_eq!(count_percent(0, &d), (0, 49));
    assert_eq!(count_percent(100, &d), (49, 49));
}

#[test]
fn render_bar_marks_inclusive_prefix() {
    assert_eq!(render_bar(20, 5), expected_bar(6));
    assert_eq!(render_bar(20, -1), expected_bar(0));
    assert_eq!(render_bar(20, 30), expected_bar(20));
    assert_eq!(render_bar(3, 0), "▓▒▒");
    assert_eq!(render_bar(0, 4), "");
}

#[test]
fn every_date_is_total_and_well_formed() {
    for year in [MIN_YEAR, -4, 0, 1900, 2000, 2023, 2024, MAX_YEAR] {
        let mut last = 0i64;
        for d in all_dates(year) {
            let (bar, percent) = progress_on(&d);
            assert_eq!(bar.chars().count(), LINE_LEN as usize);
            assert!(0 <= percent && percent <= 100);
            let fill = (20 * percent) / 100;
            let filled = bar.chars().filter(|c| *c == FILLED).count() as i64;
            assert_eq!(filled, std::cmp::min(fill + 1, 20));
            assert!(bar.chars().all(|c| c == FILLED || c == EMPTY));
            assert!(percent >= last);
            last = percent;
        }
    }
}

#[test]
fn same_day_gives_same_output() {
    let d = date(2025, 8, 17);
    assert_eq!(progress_on(&d), progress_on(&date(2025, 8, 17)));
    assert_eq!(progress(), progress());
}

#[test]
fn progress_reads_local_date() {
    let (bar, percent) = progress();
    assert_eq!(bar.chars().count(), 20);
    assert!(0 <= percent && percent <= 100);
    let t = chrono::Local::now().date_naive();
    let today = date(
        chrono::Datelike::year(&t),
        chrono::Datelike::month(&t),
        chrono::Datelike::day(&t),
    );
    assert_eq!(progress_on(&today), (bar, percent));
}

#[test]
fn calendar_date_rejects_missing_days() {
    assert!(CalendarDate::new(2023, 2, 29).is_none());
    assert!(CalendarDate::new(2024, 2, 29).is_some());
    assert!(CalendarDate::new(1900, 2, 29).is_none());
    assert!(CalendarDate::new(2000, 2, 29).is_some());
    assert!(CalendarDate::new(2023, 0, 1).is_none());
    assert!(CalendarDate::new(2023, 13, 1).is_none());
    assert!(CalendarDate::new(2023, 4, 31).is_none());
    assert!(CalendarDate::new(2023, 4, 0).is_none());
    assert!(CalendarDate::new(MAX_YEAR + 1, 1, 1).is_none());
    assert!(CalendarDate::new(MIN_YEAR - 1, 1, 1).is_none());
    assert_eq!(CalendarDate::new_year(2023), date(2023, 1, 1));
}

#[test]
fn leap_year_rule() {
    assert!(leap_year(2024));
    assert!(!leap_year(2023));
    assert!(!leap_year(1900));
    assert!(leap_year(2000));
    assert!(leap_year(-4));
    assert!(!leap_year(-100));
    assert!(leap_year(-400));
    assert_eq!(month_length(2023, 2), 28);
    assert_eq!(month_length(2024, 2), 29);
    assert_eq!(month_length(2024, 9), 30);
}
