use fx_rates::models::Rates;
use fx_rates::rate_table::{fold_rows, RateTable};

fn row(date: &str, currency: &str, rate: f64) -> Rates {
    Rates {
        id: 0,
        rate_dt: date.to_string(),
        base: "EUR".to_string(),
        currency: currency.to_string(),
        conversion_rate: rate.to_bits(),
    }
}

#[test]
fn new_table_is_empty() {
    let table = RateTable::new();
    assert_eq!(table.len(), 0);
    assert_eq!(table.get("USD"), None);
}

#[test]
fn insert_adds_a_currency() {
    let mut table = RateTable::new();
    table.insert("USD".to_string(), 1.25f64.to_bits());
    table.insert("GBP".to_string(), 0.85f64.to_bits());
    assert_eq!(table.len(), 2);
    assert_eq!(table.get("USD"), Some(1.25f64.to_bits()));
    assert_eq!(table.get("GBP"), Some(0.85f64.to_bits()));
    assert_eq!(table.get("JPY"), None);
    assert_eq!(table.entry(0).currency, "USD");
    assert_eq!(table.entry(1).currency, "GBP");
}

#[test]
fn insert_replaces_the_rate_of_a_held_currency() {
    let mut table = RateTable::new();
    table.insert("USD".to_string(), 1.25f64.to_bits());
    table.insert("GBP".to_string(), 0.85f64.to_bits());
    table.insert("USD".to_string(), 1.5f64.to_bits());
    assert_eq!(table.len(), 2);
    assert_eq!(table.get("USD"), Some(1.5f64.to_bits()));
    assert_eq!(table.entry(0).currency, "USD");
    assert_eq!(table.entry(0).rate, 1.5f64.to_bits());
}

#[test]
fn fold_keeps_the_later_of_two_rows_with_one_currency() {
    let rows = vec![
        row("2024-03-10", "USD", 1.08),
        row("2024-03-10", "GBP", 0.85),
        row("2024-03-10", "USD", 1.09),
    ];
    let table = fold_rows(&rows);
    assert_eq!(table.len(), 2);
    assert_eq!(table.get("USD"), Some(1.09f64.to_bits()));
    assert_eq!(table.get("GBP"), Some(0.85f64.to_bits()));
}

#[test]
fn fold_of_no_rows_is_empty() {
    let rows: Vec<Rates> = Vec::new();
    assert_eq!(fold_rows(&rows).len(), 0);
}
