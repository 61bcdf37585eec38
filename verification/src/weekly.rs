//! Reconstruction of a dense series of daily rates from stored rows.
//!
//! The rows of a window arrive newest first, and the window reaches from the
//! current day back over the requested number of days. The series has one
//! bucket for each of the requested days, from yesterday backwards. A single
//! cursor walks the rows day by day, beginning with the current day: on each
//! day it passes the run of rows at the cursor that carry that day's date,
//! and stops at the first row that does not. The rows passed on the current
//! day enter no bucket; the rows passed on an earlier day are that day's
//! bucket.

use crate::calendar::{date_label, iso_date};
use crate::models::{RateRow, Rates, rows_view};
use crate::rate_table::{RateTable, fold_rates, lemma_fold_holds_row, lemma_fold_keys};
use vstd::prelude::*;

verus! {

/// The longest window that is served.
pub const MAX_DAYS: u8 = 90;

/// The rates of one day.
#[derive(Debug)]
pub struct RateOfDate {
    pub rates: RateTable,
    /// The day, written `YYYY-MM-DD`.
    pub date: String,
    /// The day's number in the calendar.
    pub day: i32,
}

/// The answer to a request for the rates of the last days.
#[derive(Debug)]
pub struct SevenDayRatesMap {
    pub success: bool,
    pub timestamp: i64,
    pub base: String,
    /// The first and the last day of the window that was read.
    pub date: String,
    /// One bucket for each day, the most recent day first.
    pub rates: Vec<RateOfDate>,
}

/// Why a window could not be built.
#[derive(Clone, Copy, Debug, PartialEq, Eq, Structural)]
pub enum WindowError {
    /// One of the window's days lies outside the calendar.
    DateOutOfRange,
}

/// The mathematical content of a bucket.
pub struct DayRates {
    pub rates: Map<Seq<char>, u64>,
    pub date: Seq<char>,
    pub day: int,
}

/// The mathematical content of an answer.
pub struct WindowView {
    pub success: bool,
    pub timestamp: i64,
    pub base: Seq<char>,
    pub date: Seq<char>,
    pub rates: Seq<DayRates>,
}

impl View for RateOfDate {
    type V = DayRates;

    open spec fn view(&self) -> DayRates {
        DayRates { rates: self.rates@, date: self.date@, day: self.day as int }
    }
}

impl View for SevenDayRatesMap {
    type V = WindowView;

    open spec fn view(&self) -> WindowView {
        WindowView {
            success: self.success,
            timestamp: self.timestamp,
            base: self.base@,
            date: self.date@,
            rates: Seq::new(self.rates@.len(), |i: int| self.rates@[i]@),
        }
    }
}

/// The number of days served for a request of `number_of_days`.
pub open spec fn clamp_days(number_of_days: u8) -> nat {
    if number_of_days > MAX_DAYS {
        MAX_DAYS as nat
    } else {
        number_of_days as nat
    }
}

/// Every day from `today` back to `today - days` is a day of the calendar.
pub open spec fn window_dates_ok(today: int, days: nat) -> bool {
    forall|k: int|
        0 <= k <= days ==> i32::MIN <= today - k && (#[trigger] iso_date(today - k)) is Some
}

/// The dates of the days that the cursor walks: the current day, then the
/// days of the buckets.
pub open spec fn window_labels(today: int, days: nat) -> Seq<Seq<char>> {
    Seq::new(days + 1, |k: int| iso_date(today - k).unwrap())
}

/// Where the run of rows dated `label` that starts at `cursor` ends: the
/// place of the first row from `cursor` on that carries another date.
pub open spec fn run_end(rows: Seq<RateRow>, cursor: int, label: Seq<char>) -> int
    decreases rows.len() - cursor,
{
    if 0 <= cursor < rows.len() && rows[cursor].rate_dt == label {
        run_end(rows, cursor + 1, label)
    } else {
        cursor
    }
}

/// Where the cursor stands after the first `n` days of `labels`.
pub open spec fn cursor_at(rows: Seq<RateRow>, labels: Seq<Seq<char>>, n: int) -> int
    decreases n,
{
    if n <= 0 {
        0
    } else {
        run_end(rows, cursor_at(rows, labels, n - 1), labels[n - 1])
    }
}

/// The rates of the day at place `k` of the walk: the rows that the cursor
/// passes on that day.
pub open spec fn bucket(rows: Seq<RateRow>, labels: Seq<Seq<char>>, k: int) -> Map<Seq<char>, u64> {
    fold_rates(rows, cursor_at(rows, labels, k), cursor_at(rows, labels, k + 1))
}

/// The series of `days` buckets that ends the day before `today`.
pub open spec fn window_series(rows: Seq<RateRow>, today: int, days: nat) -> Seq<DayRates> {
    Seq::new(
        days,
        |i: int|
            DayRates {
                rates: bucket(rows, window_labels(today, days), i + 1),
                date: iso_date(today - 1 - i).unwrap(),
                day: today - 1 - i,
            },
    )
}

/// The written form of a window: its first day, then its last.
pub open spec fn range_text(today: int, days: nat) -> Seq<char> {
    iso_date(today - days).unwrap() + " - "@ + iso_date(today).unwrap()
}

/// What a request for the last `number_of_days` days is answered with.
pub open spec fn weekly_result(
    number_of_days: u8,
    today: int,
    rows: Seq<RateRow>,
    timestamp: i64,
) -> Result<WindowView, WindowError> {
    let days = clamp_days(number_of_days);
    if window_dates_ok(today, days) {
        Ok(
            WindowView {
                success: true,
                timestamp,
                base: "EUR"@,
                date: range_text(today, days),
                rates: window_series(rows, today, days),
            },
        )
    } else {
        Err(WindowError::DateOutOfRange)
    }
}

/// The run from a cursor ends between the cursor and the end of the rows,
/// holds only rows of the label, and is followed by a row of another date.
pub proof fn lemma_run_end(rows: Seq<RateRow>, cursor: int, label: Seq<char>)
    requires
        0 <= cursor <= rows.len(),
    ensures
        cursor <= run_end(rows, cursor, label) <= rows.len(),
        forall|j: int| cursor <= j < run_end(rows, cursor, label) ==> (#[trigger] rows[j]).rate_dt == label,
        run_end(rows, cursor, label) < rows.len() ==> rows[run_end(rows, cursor, label)].rate_dt
            != label,
    decreases rows.len() - cursor,
{
    if cursor < rows.len() && rows[cursor].rate_dt == label {
        lemma_run_end(rows, cursor + 1, label);
    }
}

/// The cursor never leaves the rows and never moves back.
pub proof fn lemma_cursor_bounds(rows: Seq<RateRow>, labels: Seq<Seq<char>>, n: int)
    ensures
        0 <= cursor_at(rows, labels, n) <= rows.len(),
        n >= 0 ==> cursor_at(rows, labels, n) <= cursor_at(rows, labels, n + 1),
    decreases n,
{
    if n > 0 {
        lemma_cursor_bounds(rows, labels, n - 1);
        lemma_run_end(rows, cursor_at(rows, labels, n - 1), labels[n - 1]);
    }
    if n >= 0 {
        assert(cursor_at(rows, labels, n + 1) == run_end(rows, cursor_at(rows, labels, n), labels[n]));
        lemma_run_end(rows, cursor_at(rows, labels, n), labels[n]);
    }
}

/// The dates of a list of days.
pub open spec fn dates_of(days: Seq<(i32, String)>) -> Seq<Seq<char>> {
    Seq::new(days.len(), |k: int| days[k].1@)
}

/// The days from `today` back to `today - days`, each with its date, or
/// `None` when one of them is no day of the calendar.
fn window_days(today: i32, days: u8) -> (list: Option<Vec<(i32, String)>>)
    ensures
        match list {
            Some(list) => {
                &&& window_dates_ok(today as int, days as nat)
                &&& list@.len() == days + 1
                &&& forall|k: int|
                    0 <= k <= days ==> (#[trigger] list@[k]).0 == today - k && iso_date(today - k)
                        == Some(list@[k].1@)
            },
            None => !window_dates_ok(today as int, days as nat),
        },
{
    let mut list: Vec<(i32, String)> = Vec::new();
    let mut k: u8 = 0;
    loop
        invariant
            k <= days,
            list@.len() == k,
            forall|j: int|
                0 <= j < k ==> (#[trigger] list@[j]).0 == today - j && iso_date(today - j) == Some(
                    list@[j].1@,
                ),
        decreases days - k,
    {
        let day: i64 = today as i64 - k as i64;
        if day < i32::MIN as i64 {
            return None;
        }
        match date_label(day as i32, "%Y-%m-%d") {
            Some(text) => {
                list.push((day as i32, text));
            },
            None => {
                assert(iso_date(today - k) is None);
                return None;
            },
        }
        if k == days {
            assert forall|j: int| 0 <= j <= days implies i32::MIN <= today - j && (
            #[trigger] iso_date(today - j)) is Some by {
                assert(list@[j].0 == today - j);
            }
            return Some(list);
        }
        k += 1;
    }
}

/// The first and the last day of the window of a request, as the rate store
/// is to be asked for them, or `DateOutOfRange` when one of the window's days
/// is no day of the calendar.
pub fn window_range(number_of_days: u8, today: i32) -> (range: Result<(String, String), WindowError>)
    ensures
        match range {
            Ok((first, last)) => {
                &&& window_dates_ok(today as int, clamp_days(number_of_days))
                &&& iso_date(today - clamp_days(number_of_days)) == Some(first@)
                &&& iso_date(today as int) == Some(last@)
            },
            Err(e) => e == WindowError::DateOutOfRange && !window_dates_ok(
                today as int,
                clamp_days(number_of_days),
            ),
        },
{
    let days: u8 = if number_of_days > MAX_DAYS {
        MAX_DAYS
    } else {
        number_of_days
    };
    match window_days(today, days) {
        None => Err(WindowError::DateOutOfRange),
        Some(list) => {
            let first = list[days as usize].1.clone();
            let last = list[0].1.clone();
            assert(list@[days as int].0 == today - days);
            assert(list@[0].0 == today - 0);
            Ok((first, last))
        },
    }
}

/// Passes the run of rows dated `label` that starts at `cursor`, and folds
/// it into a table.
fn take_run(rows: &Vec<Rates>, cursor: usize, label: &String) -> (run: (RateTable, usize))
    requires
        cursor <= rows@.len(),
    ensures
        run.0.wf(),
        run.1 == run_end(rows_view(rows@), cursor as int, label@),
        cursor <= run.1 <= rows@.len(),
        run.0@ == fold_rates(rows_view(rows@), cursor as int, run.1 as int),
{
    let ghost content = rows_view(rows@);
    let mut rates = RateTable::new();
    let mut at: usize = cursor;
    while at < rows.len() && rows[at].rate_dt == *label
        invariant
            cursor <= at <= rows@.len(),
            content == rows_view(rows@),
            rates.wf(),
            rates@ == fold_rates(content, cursor as int, at as int),
            run_end(content, at as int, label@) == run_end(content, cursor as int, label@),
        decreases rows@.len() - at,
    {
        assert(content[at as int].rate_dt == label@);
        rates.insert(rows[at].currency.clone(), rows[at].conversion_rate);
        at += 1;
    }
    proof {
        if at < rows@.len() {
            assert(content[at as int].rate_dt != label@);
        }
    }
    (rates, at)
}

/// Walks the rows over the given days and gives the bucket of each day but
/// the first.
///
/// `days` are the days of the walk, each with its number and its date, the
/// current day first. The cursor passes the rows of the first day, which
/// enter no bucket, and then for each further day the run of rows at the
/// cursor that carry that day's date.
pub fn walk_days(rows: &Vec<Rates>, days: &Vec<(i32, String)>) -> (series: Vec<RateOfDate>)
    ensures
        series@.len() == (if days@.len() == 0 {
            0
        } else {
            days@.len() - 1
        }),
        forall|i: int|
            0 <= i < series@.len() ==> {
                &&& (#[trigger] series@[i])@ == (DayRates {
                    rates: bucket(rows_view(rows@), dates_of(days@), i + 1),
                    date: days@[i + 1].1@,
                    day: days@[i + 1].0 as int,
                })
                &&& series@[i].rates.wf()
            },
{
    let mut series: Vec<RateOfDate> = Vec::new();
    if days.len() == 0 {
        return series;
    }
    let ghost content = rows_view(rows@);
    let ghost labels = dates_of(days@);
    let (_, mut cursor) = take_run(rows, 0, &days[0].1);
    assert(cursor_at(content, labels, 1) == run_end(content, cursor_at(content, labels, 0), labels[0]));
    let mut k: usize = 1;
    while k < days.len()
        invariant
            1 <= k <= days@.len(),
            content == rows_view(rows@),
            labels == dates_of(days@),
            cursor == cursor_at(content, labels, k as int),
            cursor <= rows@.len(),
            series@.len() == k - 1,
            forall|i: int|
                0 <= i < k - 1 ==> {
                    &&& (#[trigger] series@[i])@ == (DayRates {
                        rates: bucket(content, labels, i + 1),
                        date: days@[i + 1].1@,
                        day: days@[i + 1].0 as int,
                    })
                    &&& series@[i].rates.wf()
                },
        decreases days@.len() - k,
    {
        let (rates, next) = take_run(rows, cursor, &days[k].1);
        assert(cursor_at(content, labels, k + 1) == run_end(
            content,
            cursor_at(content, labels, k as int),
            labels[k as int],
        ));
        cursor = next;
        series.push(RateOfDate { rates, date: days[k].1.clone(), day: days[k].0 });
        k += 1;
    }
    series
}

/// Builds the series for the last `number_of_days` days, at most ninety, from
/// the rows that the rate store holds for the window, newest first.
///
/// The series has one bucket for each day, from the day before `today`
/// backwards, whether or not a row carries that day's date. The cursor first
/// passes the rows dated `today`, which enter no bucket. After that a row
/// enters the bucket of the day on which the cursor passes it; a row whose
/// date is not the day at hand stops the cursor until its own day comes.
pub fn weekly_rates(number_of_days: u8, today: i32, rows: &Vec<Rates>, timestamp: i64) -> (answer:
    Result<SevenDayRatesMap, WindowError>)
    ensures
        match answer {
            Ok(map) => weekly_result(number_of_days, today as int, rows_view(rows@), timestamp)
                == Ok::<WindowView, WindowError>(map@),
            Err(e) => weekly_result(number_of_days, today as int, rows_view(rows@), timestamp)
                == Err::<WindowView, WindowError>(e),
        },
        answer matches Ok(map) ==> {
            &&& map.rates@.len() == clamp_days(number_of_days)
            &&& forall|i: int|
                0 <= i < map.rates@.len() ==> {
                    &&& (#[trigger] map.rates@[i]).day == today - 1 - i
                    &&& iso_date(today - 1 - i) == Some(map.rates@[i].date@)
                    &&& map.rates@[i].rates.wf()
                }
        },
{
    let days: u8 = if number_of_days > MAX_DAYS {
        MAX_DAYS
    } else {
        number_of_days
    };
    let list = match window_days(today, days) {
        None => {
            return Err(WindowError::DateOutOfRange);
        },
        Some(list) => list,
    };
    let series = walk_days(rows, &list);
    let mut range = list[days as usize].1.clone();
    range.append(" - ");
    range.append(list[0].1.as_str());
    let map = SevenDayRatesMap {
        success: true,
        timestamp,
        base: String::from_str("EUR"),
        date: range,
        rates: series,
    };
    proof {
        assert(dates_of(list@) =~= window_labels(today as int, days as nat)) by {
            assert forall|k: int| 0 <= k <= days implies dates_of(list@)[k] == iso_date(
                today - k,
            ).unwrap() by {
                assert(list@[k].0 == today - k);
            }
        }
        assert forall|i: int| 0 <= i < days implies (#[trigger] map.rates@[i]).day == today - 1 - i
            && iso_date(today - 1 - i) == Some(map.rates@[i].date@) by {
            assert(list@[i + 1].0 == today - (i + 1));
        }
        assert(map@.rates =~= window_series(rows_view(rows@), today as int, days as nat));
        assert(list@[days as int].0 == today - days);
        assert(list@[0].0 == today - 0);
        assert(map@.date == range_text(today as int, days as nat));
    }
    Ok(map)
}

/// A request for more than ninety days is answered as a request for ninety.
pub proof fn lemma_days_above_limit(number_of_days: u8, today: int, rows: Seq<RateRow>, timestamp: i64)
    requires
        number_of_days > MAX_DAYS,
    ensures
        weekly_result(number_of_days, today, rows, timestamp) == weekly_result(
            MAX_DAYS,
            today,
            rows,
            timestamp,
        ),
{
}

/// The series has one bucket for each day served, and the buckets' days go
/// down by one from the day before `today`.
pub proof fn lemma_series_days(rows: Seq<RateRow>, today: int, days: nat)
    ensures
        window_series(rows, today, days).len() == days,
        forall|i: int|
            0 <= i < days ==> (#[trigger] window_series(rows, today, days)[i]).day == today - 1 - i,
        forall|i: int|
            0 < i < days ==> (#[trigger] window_series(rows, today, days)[i]).day + 1
                == window_series(rows, today, days)[i - 1].day,
{
}

/// With no rows in the window there is still one bucket for each day, and
/// every bucket is empty.
pub proof fn lemma_no_rows(today: int, days: nat)
    ensures
        window_series(Seq::<RateRow>::empty(), today, days).len() == days,
        forall|i: int|
            0 <= i < days ==> (#[trigger] window_series(Seq::<RateRow>::empty(), today, days)[i]).rates
                == Map::<Seq<char>, u64>::empty(),
{
    let rows = Seq::<RateRow>::empty();
    let labels = window_labels(today, days);
    assert forall|i: int| 0 <= i < days implies (#[trigger] window_series(rows, today, days)[i]).rates
        == Map::<Seq<char>, u64>::empty() by {
        lemma_cursor_bounds(rows, labels, i + 1);
        lemma_cursor_bounds(rows, labels, i + 2);
    }
}

/// Rows that come grouped by day, in the order of the walk, are each passed
/// on the day of their own date.
///
/// `group` gives for each row the place of its date among `labels`. Where
/// the dates of the walk are distinct and the rows come in the order of their
/// groups, the cursor reaches each row on its own day and has passed it by
/// the next.
pub proof fn lemma_grouped_rows(rows: Seq<RateRow>, labels: Seq<Seq<char>>, group: Seq<int>)
    requires
        forall|a: int, b: int| 0 <= a < b < labels.len() ==> labels[a] != labels[b],
        group.len() == rows.len(),
        forall|j: int|
            0 <= j < rows.len() ==> 0 <= #[trigger] group[j] < labels.len() && rows[j].rate_dt
                == labels[group[j]],
        forall|j: int, k: int| 0 <= j <= k < rows.len() ==> group[j] <= group[k],
    ensures
        forall|j: int|
            0 <= j < rows.len() ==> cursor_at(rows, labels, #[trigger] group[j]) <= j < cursor_at(
                rows,
                labels,
                group[j] + 1,
            ),
{
    assert forall|j: int| 0 <= j < rows.len() implies cursor_at(rows, labels, #[trigger] group[j])
        <= j < cursor_at(rows, labels, group[j] + 1) by {
        lemma_cursor_splits(rows, labels, group, group[j]);
        lemma_cursor_splits(rows, labels, group, group[j] + 1);
    }
}

/// After `n` days of the walk the cursor has passed exactly the rows of the
/// groups before `n`.
proof fn lemma_cursor_splits(rows: Seq<RateRow>, labels: Seq<Seq<char>>, group: Seq<int>, n: int)
    requires
        forall|a: int, b: int| 0 <= a < b < labels.len() ==> labels[a] != labels[b],
        group.len() == rows.len(),
        forall|j: int|
            0 <= j < rows.len() ==> 0 <= #[trigger] group[j] < labels.len() && rows[j].rate_dt
                == labels[group[j]],
        forall|j: int, k: int| 0 <= j <= k < rows.len() ==> group[j] <= group[k],
        0 <= n <= labels.len(),
    ensures
        0 <= cursor_at(rows, labels, n) <= rows.len(),
        forall|j: int|
            0 <= j < rows.len() ==> (j < cursor_at(rows, labels, n) <==> #[trigger] group[j] < n),
    decreases n,
{
    lemma_cursor_bounds(rows, labels, n);
    if n > 0 {
        lemma_cursor_splits(rows, labels, group, n - 1);
        let before = cursor_at(rows, labels, n - 1);
        let after = cursor_at(rows, labels, n);
        lemma_run_end(rows, before, labels[n - 1]);
        assert forall|j: int| 0 <= j < rows.len() implies (j < after <==> #[trigger] group[j] < n) by {
            if j < after {
                if before <= j {
                    assert(rows[j].rate_dt == labels[n - 1]);
                    let g = group[j];
                    if g < n - 1 {
                        assert(labels[g] != labels[n - 1]);
                    } else if g > n - 1 {
                        assert(labels[n - 1] != labels[g]);
                    }
                }
            } else if group[j] < n {
                let g = group[after];
                assert(g <= group[j]);
                assert(g >= n - 1);
                assert(rows[after].rate_dt == labels[g]);
            }
        }
    }
}

/// Of rows that come grouped by day, in the order of the walk, each day's
/// bucket holds the rows of that day's date and no others.
///
/// Where the dates of the walk are distinct and the rows come in the order
/// of their groups, the bucket of a day holds a currency exactly when a row
/// of that day's date carries it, and a row gives its currency the rate in
/// the bucket of its date unless a later row of the same date carries the
/// same currency.
pub proof fn lemma_grouped_buckets(rows: Seq<RateRow>, labels: Seq<Seq<char>>, group: Seq<int>)
    requires
        forall|a: int, b: int| 0 <= a < b < labels.len() ==> labels[a] != labels[b],
        group.len() == rows.len(),
        forall|j: int|
            0 <= j < rows.len() ==> 0 <= #[trigger] group[j] < labels.len() && rows[j].rate_dt
                == labels[group[j]],
        forall|j: int, k: int| 0 <= j <= k < rows.len() ==> group[j] <= group[k],
    ensures
        forall|k: int, code: Seq<char>|
            0 <= k < labels.len() ==> (#[trigger] bucket(rows, labels, k).contains_key(code) <==> exists|
                j: int,
            |
                0 <= j < rows.len() && (#[trigger] rows[j]).rate_dt == labels[k] && rows[j].currency
                    == code),
        forall|j: int|
            0 <= j < rows.len() && (forall|l: int|
                j < l < rows.len() && (#[trigger] rows[l]).rate_dt == rows[j].rate_dt
                    ==> rows[l].currency != rows[j].currency) ==> bucket(
                rows,
                labels,
                #[trigger] group[j],
            )[rows[j].currency] == rows[j].conversion_rate,
{
    lemma_grouped_rows(rows, labels, group);
    assert forall|k: int, code: Seq<char>| 0 <= k < labels.len() implies (#[trigger] bucket(
        rows,
        labels,
        k,
    ).contains_key(code) <==> exists|j: int|
        0 <= j < rows.len() && (#[trigger] rows[j]).rate_dt == labels[k] && rows[j].currency
            == code) by {
        let from = cursor_at(rows, labels, k);
        let to = cursor_at(rows, labels, k + 1);
        lemma_cursor_bounds(rows, labels, k);
        lemma_cursor_bounds(rows, labels, k + 1);
        lemma_run_end(rows, from, labels[k]);
        if bucket(rows, labels, k).contains_key(code) {
            lemma_fold_keys(rows, from, to, code);
            let j = choose|j: int| from <= j < to && (#[trigger] rows[j]).currency == code;
            assert(rows[j].rate_dt == labels[k]);
        }
        if exists|j: int|
            0 <= j < rows.len() && (#[trigger] rows[j]).rate_dt == labels[k] && rows[j].currency
                == code {
            let j = choose|j: int|
                0 <= j < rows.len() && (#[trigger] rows[j]).rate_dt == labels[k]
                    && rows[j].currency == code;
            let g = group[j];
            if g < k {
                assert(labels[g] != labels[k]);
            } else if g > k {
                assert(labels[k] != labels[g]);
            }
            lemma_fold_holds_row(rows, from, to, j);
        }
    }
    assert forall|j: int|
        0 <= j < rows.len() && (forall|l: int|
            j < l < rows.len() && (#[trigger] rows[l]).rate_dt == rows[j].rate_dt ==> rows[l].currency
                != rows[j].currency) implies bucket(rows, labels, #[trigger] group[j])[rows[j].currency]
        == rows[j].conversion_rate by {
        let k = group[j];
        let from = cursor_at(rows, labels, k);
        let to = cursor_at(rows, labels, k + 1);
        lemma_cursor_bounds(rows, labels, k);
        lemma_cursor_bounds(rows, labels, k + 1);
        lemma_run_end(rows, from, labels[k]);
        assert forall|l: int| j < l < to implies (#[trigger] rows[l]).currency != rows[j].currency by {
            assert(rows[l].rate_dt == labels[k]);
        }
        lemma_fold_holds_row(rows, from, to, j);
    }
}

/// The days of the walk are written differently from one another.
pub open spec fn window_dates_distinct(today: int, days: nat) -> bool {
    forall|a: int, b: int|
        0 <= a < b <= days ==> #[trigger] window_labels(today, days)[a] != #[trigger] window_labels(
            today,
            days,
        )[b]
}

/// Of rows that come grouped by day, newest first, the series holds in each
/// day's bucket the rows of that day's date and no others.
///
/// `group` gives for each row how many days before `today` it is dated.
/// Where the days of the walk are written differently from one another and
/// the rows come in the order of their groups, the bucket of a day holds a
/// currency exactly when a row of that day's date carries it, and a row
/// dated before `today` gives its currency the rate in the bucket of its
/// date unless a later row of the same date carries the same currency.
pub proof fn lemma_series_of_grouped_rows(rows: Seq<RateRow>, today: int, days: nat, group: Seq<int>)
    requires
        window_dates_distinct(today, days),
        group.len() == rows.len(),
        forall|j: int|
            0 <= j < rows.len() ==> 0 <= #[trigger] group[j] <= days && rows[j].rate_dt
                == window_labels(today, days)[group[j]],
        forall|j: int, k: int| 0 <= j <= k < rows.len() ==> group[j] <= group[k],
    ensures
        forall|i: int, code: Seq<char>|
            0 <= i < days ==> (#[trigger] window_series(rows, today, days)[i].rates.contains_key(code)
                <==> exists|j: int|
                0 <= j < rows.len() && (#[trigger] rows[j]).rate_dt == window_series(
                    rows,
                    today,
                    days,
                )[i].date && rows[j].currency == code),
        forall|j: int|
            0 <= j < rows.len() && #[trigger] group[j] >= 1 && (forall|l: int|
                j < l < rows.len() && (#[trigger] rows[l]).rate_dt == rows[j].rate_dt
                    ==> rows[l].currency != rows[j].currency) ==> window_series(
                rows,
                today,
                days,
            )[group[j] - 1].rates[rows[j].currency] == rows[j].conversion_rate,
{
    let labels = window_labels(today, days);
    lemma_grouped_buckets(rows, labels, group);
    assert forall|i: int, code: Seq<char>| 0 <= i < days implies (#[trigger] window_series(
        rows,
        today,
        days,
    )[i].rates.contains_key(code) <==> exists|j: int|
        0 <= j < rows.len() && (#[trigger] rows[j]).rate_dt == window_series(rows, today, days)[i].date
            && rows[j].currency == code) by {
        assert(window_series(rows, today, days)[i].date == labels[i + 1]);
        assert(bucket(rows, labels, i + 1).contains_key(code) <==> exists|j: int|
            0 <= j < rows.len() && (#[trigger] rows[j]).rate_dt == labels[i + 1] && rows[j].currency
                == code);
    }
}

/// One row for each of the last days: each row is alone in the bucket of its
/// date, and the buckets behind the rows are empty.
///
/// The rows are dated the day before `today`, the day before that, and so
/// on, one row a day. Where the days of the walk are written differently
/// from one another, the bucket of each of these days holds the row's
/// currency with the row's rate and nothing else, and every later bucket of
/// the series is empty.
pub proof fn lemma_one_row_each_day(rows: Seq<RateRow>, today: int, days: nat)
    requires
        window_dates_distinct(today, days),
        rows.len() <= days,
        forall|k: int|
            0 <= k < rows.len() ==> (#[trigger] rows[k]).rate_dt == window_labels(today, days)[k + 1],
    ensures
        window_series(rows, today, days).len() == days,
        forall|k: int|
            0 <= k < rows.len() ==> (#[trigger] window_series(rows, today, days)[k]).rates == Map::<
                Seq<char>,
                u64,
            >::empty().insert(rows[k].currency, rows[k].conversion_rate),
        forall|k: int|
            rows.len() <= k < days ==> (#[trigger] window_series(rows, today, days)[k]).rates == Map::<
                Seq<char>,
                u64,
            >::empty(),
{
    let labels = window_labels(today, days);
    let n = rows.len() as int;
    let group = Seq::new(rows.len(), |j: int| j + 1);
    lemma_grouped_rows(rows, labels, group);
    assert forall|m: int| 1 <= m <= n + 1 implies #[trigger] cursor_at(rows, labels, m) == m - 1 by {
        lemma_cursor_bounds(rows, labels, m);
        if m - 1 < n {
            assert(group[m - 1] == m);
        }
        if m - 1 > 0 {
            assert(group[m - 2] == m - 1);
        }
    }
    assert forall|m: int| n + 1 <= m <= days + 1 implies #[trigger] cursor_at(rows, labels, m) == n by {
        lemma_cursor_reaches(rows, labels, n + 1, m);
        lemma_cursor_bounds(rows, labels, m);
    }
    assert forall|k: int| 0 <= k < n implies (#[trigger] window_series(rows, today, days)[k]).rates
        == Map::<Seq<char>, u64>::empty().insert(rows[k].currency, rows[k].conversion_rate) by {
        assert(cursor_at(rows, labels, k + 1) == k);
        assert(cursor_at(rows, labels, k + 2) == k + 1);
        assert(fold_rates(rows, k, k) == Map::<Seq<char>, u64>::empty());
        assert(fold_rates(rows, k, k + 1) == fold_rates(rows, k, k).insert(
            rows[k].currency,
            rows[k].conversion_rate,
        ));
    }
    assert forall|k: int| n <= k < days implies (#[trigger] window_series(rows, today, days)[k]).rates
        == Map::<Seq<char>, u64>::empty() by {
        assert(cursor_at(rows, labels, k + 1) == n);
        assert(cursor_at(rows, labels, k + 2) == n);
    }
}

/// The cursor stands at a later day where it stood at an earlier one, or
/// further on.
proof fn lemma_cursor_reaches(rows: Seq<RateRow>, labels: Seq<Seq<char>>, from: int, to: int)
    requires
        0 <= from <= to,
    ensures
        cursor_at(rows, labels, from) <= cursor_at(rows, labels, to),
    decreases to - from,
{
    if from < to {
        lemma_cursor_reaches(rows, labels, from, to - 1);
        lemma_cursor_bounds(rows, labels, to - 1);
    }
}

/// A day on which no row is dated has an empty bucket.
pub proof fn lemma_day_without_rows(rows: Seq<RateRow>, labels: Seq<Seq<char>>, k: int)
    requires
        0 <= k < labels.len(),
        forall|j: int| 0 <= j < rows.len() ==> (#[trigger] rows[j]).rate_dt != labels[k],
    ensures
        bucket(rows, labels, k) == Map::<Seq<char>, u64>::empty(),
{
    lemma_cursor_bounds(rows, labels, k);
    let at = cursor_at(rows, labels, k);
    assert(cursor_at(rows, labels, k + 1) == run_end(rows, at, labels[k]));
    if at < rows.len() {
        assert(rows[at].rate_dt != labels[k]);
    }
}

} // verus!
