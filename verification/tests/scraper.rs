use fx_rates::markup::{ScrapedData, MAX_MARKUP_BYTES};
use fx_rates::rate_scraper::{
    extract_document, extract_pair, extract_pairs, live_quotes, pair_identifiers, pair_index,
    scrape_by_url, unique, value_class, LiveCurrencyRate, PairText, ParsedValues, ScrapeError,
    UNPARSED,
};
use itertools::Itertools;

fn pair_row(number: u32, label: &str, values: [&str; 4]) -> String {
    format!(
        "<tr id=\"pair_{n}\" data-pair=\"pair_{n}\"><td class=\"flag\"><span></span></td>\
         <td class=\"bold left\"><a href=\"/currencies/x\" title=\"{l}\">{l}</a></td>\
         <td class=\"pid-{n}-bid\">{b}</td><td class=\"pid-{n}-ask\">{a}</td>\
         <td class=\"pid-{n}-high\">{h}</td><td class=\"pid-{n}-low\">{w}</td></tr>",
        n = number,
        l = label,
        b = values[0],
        a = values[1],
        h = values[2],
        w = values[3]
    )
}

fn page(rows: &[String]) -> String {
    format!(
        "<!DOCTYPE html><html><head><title>Rates</title></head><body><div id=\"top\">\
         <table class=\"genTbl closedTbl crossRatesTbl\"><thead><tr><th>Pair</th></tr></thead>\
         <tbody>{}</tbody></table></div></body></html>",
        rows.concat()
    )
}

fn parse_values(texts: &PairText) -> ParsedValues {
    let parse = |text: &str| text.parse::<f64>().ok().map(f64::to_bits);
    ParsedValues {
        bid: parse(&texts.bid),
        ask: parse(&texts.ask),
        high: parse(&texts.high),
        low: parse(&texts.low),
    }
}

fn quotes(texts: Vec<PairText>) -> Vec<LiveCurrencyRate> {
    let found: Vec<(PairText, ParsedValues)> =
        texts.into_iter().map(|t| { let p = parse_values(&t); (t, p) }).collect();
    live_quotes(&found)
}

#[test]
fn two_pairs_give_two_quotes() {
    let html = page(&[
        pair_row(1, "EUR/USD", ["1.0850", "1.0852", "1.0900", "1.0800"]),
        pair_row(2, "GBP/USD", ["1.2701", "1.2703", "1.2750", "1.2650"]),
    ]);
    let texts = scrape_by_url(html).unwrap();
    assert_eq!(texts.len(), 2);
    let quotes: Vec<LiveCurrencyRate> = quotes(texts);
    assert_eq!(quotes[0].pair, "EUR/USD");
    assert_eq!(f64::from_bits(quotes[0].bid), 1.0850);
    assert_eq!(f64::from_bits(quotes[0].ask), 1.0852);
    assert_eq!(f64::from_bits(quotes[0].high), 1.0900);
    assert_eq!(f64::from_bits(quotes[0].low), 1.0800);
    assert_eq!(quotes[1].pair, "GBP/USD");
    assert_eq!(f64::from_bits(quotes[1].bid), 1.2701);
    assert_eq!(f64::from_bits(quotes[1].ask), 1.2703);
    assert_eq!(f64::from_bits(quotes[1].high), 1.2750);
    assert_eq!(f64::from_bits(quotes[1].low), 1.2650);
}

#[test]
fn a_value_that_is_no_number_becomes_the_sentinel() {
    let html = page(&[
        pair_row(1, "EUR/USD", ["1.0850", "n/a", "1.0900", "1.0800"]),
        pair_row(2, "GBP/USD", ["1.2701", "1.2703", "1.2750", "1.2650"]),
    ]);
    let texts = scrape_by_url(html).unwrap();
    assert_eq!(texts.len(), 2);
    assert_eq!(texts[0].ask, "n/a");
    let quotes = quotes(texts);
    assert_eq!(quotes.len(), 2);
    assert_eq!(quotes[0].pair, "EUR/USD");
    assert_eq!(f64::from_bits(quotes[0].bid), 1.0850);
    assert_eq!(f64::from_bits(quotes[0].ask), -1.0);
    assert_eq!(f64::from_bits(quotes[0].high), 1.0900);
    assert_eq!(f64::from_bits(quotes[0].low), 1.0800);
    assert_eq!(f64::from_bits(quotes[1].ask), 1.2703);
}

#[test]
fn the_sentinel_is_minus_one() {
    assert_eq!(UNPARSED, (-1f64).to_bits());
    let rate = LiveCurrencyRate::new("EUR/USD".to_string(), None, Some(2f64.to_bits()), None, None);
    assert_eq!(rate.pair, "EUR/USD");
    assert_eq!(rate.bid, UNPARSED);
    assert_eq!(rate.ask, 2f64.to_bits());
    assert_eq!(rate.high, UNPARSED);
    assert_eq!(rate.low, UNPARSED);
}

#[test]
fn an_empty_body_gives_no_quote() {
    assert_eq!(scrape_by_url(String::new()).map(|list| list.len()), Ok(0));
}

#[test]
fn a_table_without_pairs_gives_no_quote() {
    assert_eq!(scrape_by_url(page(&[])).map(|list| list.len()), Ok(0));
}

#[test]
fn a_page_without_the_table_is_refused() {
    let html = "<html><body><table class=\"other\"><tr id=\"pair_1\"></tr></table></body></html>";
    assert_eq!(scrape_by_url(html.to_string()).err(), Some(ScrapeError::MissingTable));
    assert_eq!(scrape_by_url(" ".to_string()).err(), Some(ScrapeError::MissingTable));
}

#[test]
fn a_body_beyond_the_limit_is_refused() {
    let html = " ".repeat(MAX_MARKUP_BYTES + 1);
    assert_eq!(scrape_by_url(html).err(), Some(ScrapeError::TooLarge));
}

#[test]
fn an_identifier_without_a_row_is_refused() {
    let html = "<html><body><table class=\"crossRatesTbl\"><tr><td>pair_7</td></tr></table></body></html>";
    assert_eq!(scrape_by_url(html.to_string()).err(), Some(ScrapeError::MissingPair));
}

#[test]
fn the_first_missing_node_ends_the_reading() {
    let full = pair_row(1, "EUR/USD", ["1", "2", "3", "4"]);
    let cases = [
        ("pid-1-bid", ScrapeError::MissingBid),
        ("pid-1-ask", ScrapeError::MissingAsk),
        ("pid-1-high", ScrapeError::MissingHigh),
        ("pid-1-low", ScrapeError::MissingLow),
    ];
    for (class, error) in cases {
        let broken = full.replace(class, "gone");
        let html = page(&[pair_row(2, "GBP/USD", ["1", "2", "3", "4"]), broken]);
        assert_eq!(scrape_by_url(html).err(), Some(error));
    }
    let no_label = full.replace("<a ", "<b ").replace("</a>", "</b>");
    assert_eq!(scrape_by_url(page(&[no_label])).err(), Some(ScrapeError::MissingLabel));
    let no_values = full.replace("pid-1-", "pid-x-");
    assert_eq!(scrape_by_url(page(&[no_values])).err(), Some(ScrapeError::MissingBid));
}

#[test]
fn pairs_are_read_in_the_order_of_first_occurrence() {
    let html = page(&[
        pair_row(12, "USD/JPY", ["1", "2", "3", "4"]),
        pair_row(3, "EUR/CHF", ["5", "6", "7", "8"]),
        pair_row(7, "AUD/USD", ["9", "10", "11", "12"]),
    ]);
    let texts = scrape_by_url(html).unwrap();
    let labels: Vec<&str> = texts.iter().map(|t| t.pair.as_str()).collect();
    assert_eq!(labels, vec!["USD/JPY", "EUR/CHF", "AUD/USD"]);
    assert_eq!(texts[1].bid, "5");
    assert_eq!(texts[2].low, "12");
}

#[test]
fn a_parsed_page_can_be_read_pair_by_pair() {
    let html = page(&[pair_row(4, "EUR/GBP", ["0.85", "0.86", "0.87", "0.84"])]);
    let data = ScrapedData::new(html.clone());
    assert_eq!(data.html_text, html);
    let texts = extract_pair(&data, "pair_4").unwrap();
    assert_eq!(texts.pair, "EUR/GBP");
    assert_eq!(texts.bid, "0.85");
    assert_eq!(texts.ask, "0.86");
    assert_eq!(texts.high, "0.87");
    assert_eq!(texts.low, "0.84");
    assert_eq!(extract_pair(&data, "pair_5").err(), Some(ScrapeError::MissingPair));
    assert_eq!(extract_pair(&data, "pair4").err(), Some(ScrapeError::MalformedPair));
    let list = extract_pairs(&data, &vec!["pair_4".to_string(), "pair_4".to_string()]).unwrap();
    assert_eq!(list.len(), 2);
    assert_eq!(
        extract_pairs(&data, &vec!["pair_4".to_string(), "pair_9".to_string()]).err(),
        Some(ScrapeError::MissingPair)
    );
    assert_eq!(extract_document(&data).map(|list| list.len()), Ok(1));
}

#[test]
fn the_number_of_an_identifier_follows_its_first_underscore() {
    assert_eq!(pair_index("pair_12"), Some("12".to_string()));
    assert_eq!(pair_index("pair_12_x"), Some("12".to_string()));
    assert_eq!(pair_index("pair_"), Some(String::new()));
    assert_eq!(pair_index("_7"), Some("7".to_string()));
    assert_eq!(pair_index("__"), Some(String::new()));
    assert_eq!(pair_index("pair"), None);
    assert_eq!(pair_index(""), None);
    assert_eq!(pair_index("p\u{e4}r_\u{664}\u{662}"), Some("\u{664}\u{662}".to_string()));
    for token in ["pair_12", "a_b_c", "_", "x__y", "p\u{e4}r_1"] {
        let pieces: Vec<&str> = token.split("_").collect();
        assert_eq!(pair_index(token), Some(pieces[1].to_string()));
    }
}

#[test]
fn the_class_of_a_value_is_built_from_the_number() {
    assert_eq!(value_class("12", "-bid"), "pid-12-bid");
    assert_eq!(value_class("3", "-high"), "pid-3-high");
    assert_eq!(value_class("", "-low"), "pid--low");
}

#[test]
fn repetitions_are_removed_in_place_of_first_occurrence() {
    let tokens: Vec<String> =
        ["pair_2", "pair_1", "pair_2", "pair_3", "pair_1", "pair_2"].iter().map(|s| s.to_string()).collect();
    assert_eq!(unique(tokens), vec!["pair_2".to_string(), "pair_1".to_string(), "pair_3".to_string()]);
    assert_eq!(unique(Vec::new()), Vec::<String>::new());
}

#[test]
fn unique_agrees_with_itertools() {
    let samples: Vec<Vec<&str>> = vec![
        vec![],
        vec!["a"],
        vec!["a", "a", "a"],
        vec!["a", "b", "a", "c", "b", "d", "d"],
        vec!["pair_1", "pair_10", "pair_1", "pair_100", "pair_10"],
    ];
    for sample in samples {
        let tokens: Vec<String> = sample.iter().map(|s| s.to_string()).collect();
        let expected: Vec<String> = tokens.clone().into_iter().unique().collect();
        assert_eq!(unique(tokens), expected);
    }
}

#[test]
fn a_refused_search_is_an_error() {
    assert_eq!(pair_identifiers(None), Err(ScrapeError::InvalidPattern));
    let found = vec!["pair_1".to_string(), "pair_2".to_string(), "pair_1".to_string()];
    assert_eq!(pair_identifiers(Some(found)), Ok(vec!["pair_1".to_string(), "pair_2".to_string()]));
    assert_eq!(pair_identifiers(Some(Vec::new())), Ok(Vec::new()));
}

#[test]
fn every_pair_gives_a_quote_whatever_parsed() {
    let texts = |pair: &str| PairText {
        pair: pair.to_string(),
        bid: "b".to_string(),
        ask: "a".to_string(),
        high: "h".to_string(),
        low: "l".to_string(),
    };
    let nothing = ParsedValues { bid: None, ask: None, high: None, low: None };
    let some = ParsedValues {
        bid: Some(1f64.to_bits()),
        ask: None,
        high: Some(3f64.to_bits()),
        low: Some(0f64.to_bits()),
    };
    let quotes = live_quotes(&vec![(texts("EUR/USD"), nothing), (texts("GBP/USD"), some)]);
    assert_eq!(quotes.len(), 2);
    assert_eq!(quotes[0].pair, "EUR/USD");
    assert_eq!(
        [quotes[0].bid, quotes[0].ask, quotes[0].high, quotes[0].low],
        [UNPARSED, UNPARSED, UNPARSED, UNPARSED]
    );
    assert_eq!(quotes[1].pair, "GBP/USD");
    assert_eq!(
        [quotes[1].bid, quotes[1].ask, quotes[1].high, quotes[1].low],
        [1f64.to_bits(), UNPARSED, 3f64.to_bits(), 0f64.to_bits()]
    );
    assert_eq!(live_quotes(&Vec::new()).len(), 0);
}
