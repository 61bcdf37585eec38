use chrono::{Datelike, NaiveDate};
use fx_rates::models::Rates;
use fx_rates::weekly::{
    walk_days, weekly_rates, window_range, SevenDayRatesMap, WindowError, MAX_DAYS,
};

fn day_number(year: i32, month: u32, day: u32) -> i32 {
    NaiveDate::from_ymd_opt(year, month, day).unwrap().num_days_from_ce()
}

fn row(date: &str, currency: &str, rate: f64) -> Rates {
    Rates {
        id: 0,
        rate_dt: date.to_string(),
        base: "EUR".to_string(),
        currency: currency.to_string(),
        conversion_rate: rate.to_bits(),
    }
}

fn same_series(a: &SevenDayRatesMap, b: &SevenDayRatesMap) -> bool {
    if a.rates.len() != b.rates.len() || a.date != b.date || a.base != b.base {
        return false;
    }
    for (x, y) in a.rates.iter().zip(b.rates.iter()) {
        if x.date != y.date || x.day != y.day || x.rates.len() != y.rates.len() {
            return false;
        }
        for i in 0..x.rates.len() {
            let e = x.rates.entry(i);
            if y.rates.get(&e.currency) != Some(e.rate) {
                return false;
            }
        }
    }
    true
}

#[test]
fn every_day_count_gives_that_many_buckets_going_back_from_yesterday() {
    let today = day_number(2024, 3, 10);
    for days in 1..=90u8 {
        let map = weekly_rates(days, today, &Vec::new(), 7).unwrap();
        assert_eq!(map.rates.len(), days as usize);
        for (i, bucket) in map.rates.iter().enumerate() {
            assert_eq!(bucket.day, today - 1 - i as i32);
            let date = NaiveDate::from_num_days_from_ce_opt(bucket.day).unwrap();
            assert_eq!(bucket.date, date.format("%Y-%m-%d").to_string());
            assert_eq!(NaiveDate::parse_from_str(&bucket.date, "%Y-%m-%d").unwrap(), date);
        }
    }
}

#[test]
fn dates_are_written_year_month_day() {
    let map = weekly_rates(3, day_number(2024, 3, 2), &Vec::new(), 0).unwrap();
    assert_eq!(map.rates[0].date, "2024-03-01");
    assert_eq!(map.rates[1].date, "2024-02-29");
    assert_eq!(map.rates[2].date, "2024-02-28");
}

#[test]
fn zero_days_give_no_bucket() {
    let map = weekly_rates(0, day_number(2024, 3, 10), &Vec::new(), 0).unwrap();
    assert_eq!(map.rates.len(), 0);
    assert_eq!(map.date, "2024-03-10 - 2024-03-10");
}

#[test]
fn more_than_ninety_days_are_served_as_ninety() {
    let today = day_number(2024, 3, 10);
    let rows = vec![row("2024-03-09", "USD", 1.08), row("2023-12-20", "GBP", 0.86)];
    let ninety = weekly_rates(90, today, &rows, 5).unwrap();
    assert_eq!(ninety.rates.len(), 90);
    assert_eq!(MAX_DAYS, 90);
    for days in [91u8, 120, 200, 255] {
        let more = weekly_rates(days, today, &rows, 5).unwrap();
        assert!(same_series(&more, &ninety));
        assert_eq!(more.timestamp, ninety.timestamp);
        assert_eq!(more.success, ninety.success);
    }
}

#[test]
fn an_empty_store_gives_empty_buckets() {
    let map = weekly_rates(7, day_number(2024, 3, 10), &Vec::new(), 0).unwrap();
    assert_eq!(map.rates.len(), 7);
    for bucket in &map.rates {
        assert_eq!(bucket.rates.len(), 0);
    }
}

#[test]
fn one_row_for_each_of_the_last_three_days_lands_in_its_bucket() {
    let today = day_number(2024, 3, 10);
    let rows = vec![
        row("2024-03-09", "USD", 1.08),
        row("2024-03-08", "GBP", 0.85),
        row("2024-03-07", "JPY", 161.5),
    ];
    let map = weekly_rates(7, today, &rows, 0).unwrap();
    assert_eq!(map.rates.len(), 7);
    assert_eq!(map.rates[0].date, "2024-03-09");
    assert_eq!(map.rates[0].rates.len(), 1);
    assert_eq!(map.rates[0].rates.get("USD"), Some(1.08f64.to_bits()));
    assert_eq!(map.rates[1].date, "2024-03-08");
    assert_eq!(map.rates[1].rates.len(), 1);
    assert_eq!(map.rates[1].rates.get("GBP"), Some(0.85f64.to_bits()));
    assert_eq!(map.rates[2].date, "2024-03-07");
    assert_eq!(map.rates[2].rates.len(), 1);
    assert_eq!(map.rates[2].rates.get("JPY"), Some(161.5f64.to_bits()));
    for bucket in &map.rates[3..] {
        assert_eq!(bucket.rates.len(), 0);
    }
}

#[test]
fn rows_of_the_current_day_enter_no_bucket() {
    let today = day_number(2024, 3, 10);
    let rows = vec![
        row("2024-03-10", "USD", 1.10),
        row("2024-03-10", "GBP", 0.80),
        row("2024-03-09", "USD", 1.08),
        row("2024-03-07", "USD", 1.07),
        row("2024-03-07", "GBP", 0.84),
    ];
    let map = weekly_rates(4, today, &rows, 0).unwrap();
    assert_eq!(map.rates.len(), 4);
    assert_eq!(map.rates[0].rates.len(), 1);
    assert_eq!(map.rates[0].rates.get("USD"), Some(1.08f64.to_bits()));
    assert_eq!(map.rates[1].rates.len(), 0);
    assert_eq!(map.rates[2].rates.len(), 2);
    assert_eq!(map.rates[2].rates.get("USD"), Some(1.07f64.to_bits()));
    assert_eq!(map.rates[2].rates.get("GBP"), Some(0.84f64.to_bits()));
    assert_eq!(map.rates[3].rates.len(), 0);
}

#[test]
fn a_row_out_of_order_stops_the_cursor() {
    let today = day_number(2024, 3, 10);
    let rows = vec![
        row("2024-03-08", "GBP", 0.85),
        row("2024-03-09", "USD", 1.08),
        row("2024-03-07", "JPY", 161.5),
    ];
    let map = weekly_rates(3, today, &rows, 0).unwrap();
    assert_eq!(map.rates.len(), 3);
    assert_eq!(map.rates[0].rates.len(), 0);
    assert_eq!(map.rates[1].rates.len(), 1);
    assert_eq!(map.rates[1].rates.get("GBP"), Some(0.85f64.to_bits()));
    assert_eq!(map.rates[2].rates.len(), 0);
}

#[test]
fn a_row_older_than_the_window_is_left_alone() {
    let today = day_number(2024, 3, 10);
    let rows = vec![row("2024-03-09", "USD", 1.08), row("2024-01-01", "USD", 1.01)];
    let map = weekly_rates(2, today, &rows, 0).unwrap();
    assert_eq!(map.rates[0].rates.get("USD"), Some(1.08f64.to_bits()));
    assert_eq!(map.rates[1].rates.len(), 0);
}

#[test]
fn the_envelope_names_the_window() {
    let map = weekly_rates(7, day_number(2024, 3, 10), &Vec::new(), 1_710_000_000_123).unwrap();
    assert!(map.success);
    assert_eq!(map.timestamp, 1_710_000_000_123);
    assert_eq!(map.base, "EUR");
    assert_eq!(map.date, "2024-03-03 - 2024-03-10");
}

#[test]
fn the_range_to_read_reaches_from_the_first_day_to_the_current_day() {
    let today = day_number(2024, 3, 10);
    assert_eq!(
        window_range(7, today),
        Ok(("2024-03-03".to_string(), "2024-03-10".to_string()))
    );
    assert_eq!(
        window_range(255, today),
        Ok(("2023-12-11".to_string(), "2024-03-10".to_string()))
    );
    assert_eq!(
        window_range(0, today),
        Ok(("2024-03-10".to_string(), "2024-03-10".to_string()))
    );
}

#[test]
fn a_window_outside_the_calendar_is_refused() {
    assert_eq!(weekly_rates(7, i32::MIN + 3, &Vec::new(), 0).err(), Some(WindowError::DateOutOfRange));
    assert_eq!(weekly_rates(7, i32::MAX, &Vec::new(), 0).err(), Some(WindowError::DateOutOfRange));
    assert_eq!(window_range(7, i32::MIN), Err(WindowError::DateOutOfRange));
    let first = NaiveDate::MIN.num_days_from_ce();
    assert!(weekly_rates(3, first + 3, &Vec::new(), 0).is_ok());
    assert_eq!(weekly_rates(3, first + 2, &Vec::new(), 0).err(), Some(WindowError::DateOutOfRange));
}

#[test]
fn a_walk_over_given_days_buckets_all_but_the_first() {
    let rows = vec![
        row("today", "USD", 1.0),
        row("yesterday", "USD", 2.0),
        row("yesterday", "GBP", 3.0),
        row("yesterday", "USD", 4.0),
        row("long ago", "JPY", 5.0),
    ];
    let days = vec![
        (10, "today".to_string()),
        (9, "yesterday".to_string()),
        (8, "the day before".to_string()),
        (7, "long ago".to_string()),
    ];
    let series = walk_days(&rows, &days);
    assert_eq!(series.len(), 3);
    assert_eq!(series[0].day, 9);
    assert_eq!(series[0].date, "yesterday");
    assert_eq!(series[0].rates.len(), 2);
    assert_eq!(series[0].rates.get("USD"), Some(4f64.to_bits()));
    assert_eq!(series[0].rates.get("GBP"), Some(3f64.to_bits()));
    assert_eq!(series[1].day, 8);
    assert_eq!(series[1].date, "the day before");
    assert_eq!(series[1].rates.len(), 0);
    assert_eq!(series[2].day, 7);
    assert_eq!(series[2].date, "long ago");
    assert_eq!(series[2].rates.get("JPY"), Some(5f64.to_bits()));
}

#[test]
fn a_walk_over_no_day_or_one_day_gives_no_bucket() {
    let rows = vec![row("today", "USD", 1.0)];
    assert_eq!(walk_days(&rows, &Vec::new()).len(), 0);
    assert_eq!(walk_days(&rows, &vec![(10, "today".to_string())]).len(), 0);
}
