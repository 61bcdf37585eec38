//! Extraction of live quotes from the markup of a quotes page.
//!
//! The page holds a table of currency pairs. Each pair has a row whose `id`
//! is `pair_` followed by a number, and inside the row one node for each of
//! the four quoted values, with the class `pid-<number>-bid`, `-ask`, `-high`
//! or `-low`, and a link that holds the pair's label.

use crate::markup::{
    MAX_MARKUP_BYTES, ScrapedData, find_all, find_attr, find_class, find_class_below,
    find_named_below, first_below_named, first_below_with_class, first_with_attr,
    first_with_class, html_document, inner_html_of, node_inner_html, node_text, regex_matches,
    text_of, texts,
};
use select::document::Document;
use vstd::prelude::*;
use vstd::utf8::encode_utf8;

verus! {

/// The value of a quote whose text is not a number: the bit pattern of -1.
pub const UNPARSED: u64 = 0xBFF0_0000_0000_0000;

/// A live quote of a currency pair. Each value is the bit pattern of a
/// binary64 number.
#[derive(Clone, Debug)]
pub struct LiveCurrencyRate {
    pub pair: String,
    pub bid: u64,
    pub ask: u64,
    pub high: u64,
    pub low: u64,
}

/// The texts of a currency pair as they stand in the page.
#[derive(Clone, Debug)]
pub struct PairText {
    pub pair: String,
    pub bid: String,
    pub ask: String,
    pub high: String,
    pub low: String,
}

/// The mathematical content of a pair's texts.
pub struct PairTextView {
    pub pair: Seq<char>,
    pub bid: Seq<char>,
    pub ask: Seq<char>,
    pub high: Seq<char>,
    pub low: Seq<char>,
}

impl View for PairText {
    type V = PairTextView;

    open spec fn view(&self) -> PairTextView {
        PairTextView {
            pair: self.pair@,
            bid: self.bid@,
            ask: self.ask@,
            high: self.high@,
            low: self.low@,
        }
    }
}

/// Why a page gave no quotes.
#[derive(Clone, Copy, Debug, PartialEq, Eq, Structural)]
pub enum ScrapeError {
    /// The page is longer than the parser takes.
    TooLarge,
    /// The page has no table of pairs.
    MissingTable,
    /// The pattern of a pair's identifier was not accepted.
    InvalidPattern,
    /// A pair's identifier holds no number.
    MalformedPair,
    /// No row carries the pair's identifier.
    MissingPair,
    /// The pair's row has no bid.
    MissingBid,
    /// The pair's row has no label.
    MissingLabel,
    /// The pair's row has no ask.
    MissingAsk,
    /// The pair's row has no high.
    MissingHigh,
    /// The pair's row has no low.
    MissingLow,
}

/// The contents of a list of pair texts.
pub open spec fn pair_views(list: Seq<PairText>) -> Seq<PairTextView> {
    Seq::new(list.len(), |i: int| list[i]@)
}

/// The value of a quote: the number parsed from its text, or the sentinel
/// where the text is no number.
pub open spec fn value_or_unparsed(parsed: Option<u64>) -> u64 {
    match parsed {
        Some(bits) => bits,
        None => UNPARSED,
    }
}

fn bits_or_unparsed(parsed: Option<u64>) -> (bits: u64)
    ensures
        bits == value_or_unparsed(parsed),
{
    match parsed {
        Some(bits) => bits,
        None => UNPARSED,
    }
}

impl LiveCurrencyRate {
    /// The quote of a pair, from the pair's label and what parsing the text
    /// of each value gave. A value that did not parse becomes the sentinel
    /// and leaves the others as they are.
    pub fn new(
        pair: String,
        bid: Option<u64>,
        ask: Option<u64>,
        high: Option<u64>,
        low: Option<u64>,
    ) -> (rate: LiveCurrencyRate)
        ensures
            rate.pair@ == pair@,
            rate.bid == value_or_unparsed(bid),
            rate.ask == value_or_unparsed(ask),
            rate.high == value_or_unparsed(high),
            rate.low == value_or_unparsed(low),
    {
        LiveCurrencyRate {
            pair,
            bid: bits_or_unparsed(bid),
            ask: bits_or_unparsed(ask),
            high: bits_or_unparsed(high),
            low: bits_or_unparsed(low),
        }
    }
}

/// The place of the first underscore of `s` from `from` on, or the length of
/// `s` where there is none.
pub open spec fn next_underscore(s: Seq<char>, from: int) -> int
    decreases s.len() - from,
{
    if 0 <= from < s.len() && s[from] != '_' {
        next_underscore(s, from + 1)
    } else {
        from
    }
}

/// What parsing the four values of a pair gave: for each value the bit
/// pattern of the number, or `None` where its text is no number.
#[derive(Clone, Copy, Debug)]
pub struct ParsedValues {
    pub bid: Option<u64>,
    pub ask: Option<u64>,
    pub high: Option<u64>,
    pub low: Option<u64>,
}

/// The mathematical content of a quote.
pub struct LiveRateView {
    pub pair: Seq<char>,
    pub bid: u64,
    pub ask: u64,
    pub high: u64,
    pub low: u64,
}

impl View for LiveCurrencyRate {
    type V = LiveRateView;

    open spec fn view(&self) -> LiveRateView {
        LiveRateView {
            pair: self.pair@,
            bid: self.bid,
            ask: self.ask,
            high: self.high,
            low: self.low,
        }
    }
}

/// The quote of a pair: the pair's label as it stands in the page, and for
/// each value by itself the number that its text parsed to, or the sentinel.
pub open spec fn quote_of(texts: PairTextView, parsed: ParsedValues) -> LiveRateView {
    LiveRateView {
        pair: texts.pair,
        bid: value_or_unparsed(parsed.bid),
        ask: value_or_unparsed(parsed.ask),
        high: value_or_unparsed(parsed.high),
        low: value_or_unparsed(parsed.low),
    }
}

/// The quotes of the pairs read from a page, in the order of the pairs.
///
/// Each pair comes with what parsing its four values gave. There is one
/// quote for each pair, whatever parsed: a value that is no number becomes
/// the sentinel, and neither removes the quote nor touches another value.
pub fn live_quotes(found: &Vec<(PairText, ParsedValues)>) -> (quotes: Vec<LiveCurrencyRate>)
    ensures
        quotes@.len() == found@.len(),
        forall|i: int|
            0 <= i < quotes@.len() ==> (#[trigger] quotes@[i])@ == quote_of(found@[i].0@, found@[i].1),
{
    let mut quotes: Vec<LiveCurrencyRate> = Vec::new();
    let mut i: usize = 0;
    while i < found.len()
        invariant
            i <= found@.len(),
            quotes@.len() == i,
            forall|k: int|
                0 <= k < i ==> (#[trigger] quotes@[k])@ == quote_of(found@[k].0@, found@[k].1),
        decreases found@.len() - i,
    {
        let parsed = found[i].1;
        let quote = LiveCurrencyRate::new(
            found[i].0.pair.clone(),
            parsed.bid,
            parsed.ask,
            parsed.high,
            parsed.low,
        );
        quotes.push(quote);
        i += 1;
    }
    quotes
}

/// The number of a pair's identifier: what stands between its first
/// underscore and its second, or its end. An identifier without an
/// underscore has none.
pub open spec fn pair_index_of(token: Seq<char>) -> Option<Seq<char>> {
    let first = next_underscore(token, 0);
    if first >= token.len() {
        None
    } else {
        Some(token.subrange(first + 1, next_underscore(token, first + 1)))
    }
}

fn seek_underscore(token: &str, len: usize, from: usize) -> (at: usize)
    requires
        len == token@.len(),
        from <= len,
    ensures
        at == next_underscore(token@, from as int),
        from <= at <= len,
{
    let mut at: usize = from;
    while at < len && token.get_char(at) != '_'
        invariant
            from <= at <= len,
            len == token@.len(),
            next_underscore(token@, at as int) == next_underscore(token@, from as int),
        decreases len - at,
    {
        at += 1;
    }
    at
}

/// The number of a pair's identifier.
pub fn pair_index(token: &str) -> (index: Option<String>)
    ensures
        match index {
            Some(text) => pair_index_of(token@) == Some(text@),
            None => pair_index_of(token@) is None,
        },
{
    let len = token.unicode_len();
    let first = seek_underscore(token, len, 0);
    if first >= len {
        return None;
    }
    let second = seek_underscore(token, len, first + 1);
    Some(String::from_str(token.substring_char(first + 1, second)))
}

/// The class of the node that holds one value of the pair with the number
/// `index`.
pub open spec fn value_class_of(index: Seq<char>, suffix: Seq<char>) -> Seq<char> {
    "pid-"@ + index + suffix
}

/// The class of the node that holds one value of the pair with the number
/// `index`; `suffix` is `-bid`, `-ask`, `-high` or `-low`.
pub fn value_class(index: &str, suffix: &str) -> (class: String)
    ensures
        class@ == value_class_of(index@, suffix@),
{
    let mut class = String::from_str("pid-");
    class.append(index);
    class.append(suffix);
    class
}

/// The distinct items of a list, each at the place of its first occurrence.
pub open spec fn dedup(items: Seq<Seq<char>>) -> Seq<Seq<char>>
    decreases items.len(),
{
    if items.len() == 0 {
        items
    } else {
        let before = dedup(items.drop_last());
        if before.contains(items.last()) {
            before
        } else {
            before.push(items.last())
        }
    }
}

/// The distinct items of a list hold each item of the list, and nothing
/// else, once.
pub proof fn lemma_dedup(items: Seq<Seq<char>>)
    ensures
        forall|x: Seq<char>| dedup(items).contains(x) <==> items.contains(x),
        forall|i: int, j: int| 0 <= i < j < dedup(items).len() ==> dedup(items)[i] != dedup(items)[j],
        dedup(items).len() <= items.len(),
    decreases items.len(),
{
    if items.len() > 0 {
        let head = items.drop_last();
        let last = items.last();
        lemma_dedup(head);
        let before = dedup(head);
        assert forall|x: Seq<char>| dedup(items).contains(x) <==> items.contains(x) by {
            if items.contains(x) {
                let i = choose|i: int| 0 <= i < items.len() && items[i] == x;
                if i < head.len() {
                    assert(head[i] == x);
                    assert(head.contains(x));
                    assert(before.contains(x));
                    let k = choose|k: int| 0 <= k < before.len() && before[k] == x;
                    assert(dedup(items)[k] == x);
                } else {
                    if !before.contains(last) {
                        assert(dedup(items)[before.len() as int] == x);
                    }
                }
            }
            if dedup(items).contains(x) {
                let k = choose|k: int| 0 <= k < dedup(items).len() && dedup(items)[k] == x;
                if k < before.len() {
                    assert(before[k] == x);
                    assert(before.contains(x));
                    assert(head.contains(x));
                    let i = choose|i: int| 0 <= i < head.len() && head[i] == x;
                    assert(items[i] == x);
                } else {
                    assert(items[items.len() - 1] == x);
                }
            }
        }
    }
}

fn holds(list: &Vec<String>, item: &String) -> (found: bool)
    ensures
        found == texts(list@).contains(item@),
{
    let mut i: usize = 0;
    while i < list.len()
        invariant
            i <= list@.len(),
            forall|k: int| 0 <= k < i ==> texts(list@)[k] != item@,
        decreases list@.len() - i,
    {
        if list[i] == *item {
            assert(texts(list@)[i as int] == item@);
            return true;
        }
        i += 1;
    }
    false
}

/// Removes the repetitions from a list and keeps each item at the place of
/// its first occurrence.
pub fn unique(tokens: Vec<String>) -> (distinct: Vec<String>)
    ensures
        texts(distinct@) == dedup(texts(tokens@)),
{
    let mut distinct: Vec<String> = Vec::new();
    let mut i: usize = 0;
    while i < tokens.len()
        invariant
            i <= tokens@.len(),
            texts(distinct@) == dedup(texts(tokens@).take(i as int)),
        decreases tokens@.len() - i,
    {
        let ghost seen = texts(tokens@).take(i as int);
        let ghost next = texts(tokens@).take(i + 1);
        assert(next.drop_last() =~= seen);
        assert(next.last() == tokens@[i as int]@);
        if !holds(&distinct, &tokens[i]) {
            let ghost before = texts(distinct@);
            distinct.push(tokens[i].clone());
            assert(texts(distinct@) =~= before.push(tokens@[i as int]@));
        }
        i += 1;
    }
    assert(texts(tokens@).take(tokens@.len() as int) =~= texts(tokens@));
    distinct
}

/// What a search gave, as its contents.
pub open spec fn found_texts(found: Option<Vec<String>>) -> Option<Seq<Seq<char>>> {
    match found {
        Some(list) => Some(texts(list@)),
        None => None,
    }
}

/// The identifiers to read for what the search of the table's markup gave:
/// the distinct matches, or `InvalidPattern` where the search was refused.
pub open spec fn identifiers_of(found: Option<Seq<Seq<char>>>) -> Result<Seq<Seq<char>>, ScrapeError> {
    match found {
        None => Err(ScrapeError::InvalidPattern),
        Some(tokens) => Ok(dedup(tokens)),
    }
}

/// The identifiers to read for what the search of the table's markup gave.
pub fn pair_identifiers(found: Option<Vec<String>>) -> (pairs: Result<Vec<String>, ScrapeError>)
    ensures
        match pairs {
            Ok(list) => identifiers_of(found_texts(found)) == Ok::<Seq<Seq<char>>, ScrapeError>(
                texts(list@),
            ),
            Err(e) => identifiers_of(found_texts(found)) == Err::<Seq<Seq<char>>, ScrapeError>(e),
        },
{
    match found {
        None => Err(ScrapeError::InvalidPattern),
        Some(tokens) => Ok(unique(tokens)),
    }
}

/// The class of the table that holds the pairs.
pub open spec fn table_class() -> Seq<char> {
    "crossRatesTbl"@
}

/// The pattern of a pair's identifier.
pub open spec fn pair_pattern() -> Seq<char> {
    "pair_\\d+"@
}

/// The node that holds one value of a pair: the first node below the pair's
/// row with the class of that value.
pub open spec fn value_node(doc: Document, row: int, index: Seq<char>, suffix: Seq<char>) -> Option<int> {
    first_below_with_class(doc, row, value_class_of(index, suffix))
}

/// The texts of the pair with the identifier `pair`, or the first thing
/// that is missing: the number in the identifier, the pair's row, its bid,
/// its label, its ask, its high, its low.
pub open spec fn pair_texts(doc: Document, pair: Seq<char>) -> Result<PairTextView, ScrapeError> {
    let index = pair_index_of(pair);
    let row = first_with_attr(doc, "id"@, pair);
    if index is None {
        Err(ScrapeError::MalformedPair)
    } else if row is None {
        Err(ScrapeError::MissingPair)
    } else {
        let bid = value_node(doc, row.unwrap(), index.unwrap(), "-bid"@);
        let label = first_below_named(doc, row.unwrap(), "a"@);
        let ask = value_node(doc, row.unwrap(), index.unwrap(), "-ask"@);
        let high = value_node(doc, row.unwrap(), index.unwrap(), "-high"@);
        let low = value_node(doc, row.unwrap(), index.unwrap(), "-low"@);
        if bid is None {
            Err(ScrapeError::MissingBid)
        } else if label is None {
            Err(ScrapeError::MissingLabel)
        } else if ask is None {
            Err(ScrapeError::MissingAsk)
        } else if high is None {
            Err(ScrapeError::MissingHigh)
        } else if low is None {
            Err(ScrapeError::MissingLow)
        } else {
            Ok(
                PairTextView {
                    pair: node_text(doc, label.unwrap()),
                    bid: node_text(doc, bid.unwrap()),
                    ask: node_text(doc, ask.unwrap()),
                    high: node_text(doc, high.unwrap()),
                    low: node_text(doc, low.unwrap()),
                },
            )
        }
    }
}

/// The texts of the pairs in the order given, or what is missing for the
/// first pair that is not complete.
pub open spec fn pairs_texts(doc: Document, pairs: Seq<Seq<char>>) -> Result<
    Seq<PairTextView>,
    ScrapeError,
>
    decreases pairs.len(),
{
    if pairs.len() == 0 {
        Ok(Seq::empty())
    } else {
        match pairs_texts(doc, pairs.drop_last()) {
            Err(e) => Err(e),
            Ok(before) => match pair_texts(doc, pairs.last()) {
                Err(e) => Err(e),
                Ok(texts) => Ok(before.push(texts)),
            },
        }
    }
}

/// The texts of the pairs of a document: of each distinct identifier found
/// in the markup of the table of pairs, in the order of first occurrence.
pub open spec fn document_texts(doc: Document) -> Result<Seq<PairTextView>, ScrapeError> {
    match first_with_class(doc, table_class()) {
        None => Err(ScrapeError::MissingTable),
        Some(table) => match identifiers_of(
            regex_matches(pair_pattern(), node_inner_html(doc, table)),
        ) {
            Err(e) => Err(e),
            Ok(pairs) => pairs_texts(doc, pairs),
        },
    }
}

/// What a fetched page gives: nothing for an empty page, else the texts of
/// the pairs of its document.
pub open spec fn page_texts(html: Seq<char>) -> Result<Seq<PairTextView>, ScrapeError> {
    if html.len() == 0 {
        Ok(Seq::empty())
    } else if encode_utf8(html).len() > MAX_MARKUP_BYTES {
        Err(ScrapeError::TooLarge)
    } else {
        document_texts(html_document(html))
    }
}

/// Reads the texts of one pair from a parsed page.
pub fn extract_pair(data: &ScrapedData, pair: &str) -> (found: Result<PairText, ScrapeError>)
    requires
        data.parsed(),
    ensures
        match found {
            Ok(texts) => pair_texts(data.doc, pair@) == Ok::<PairTextView, ScrapeError>(texts@),
            Err(e) => pair_texts(data.doc, pair@) == Err::<PairTextView, ScrapeError>(e),
        },
{
    let index = match pair_index(pair) {
        None => {
            return Err(ScrapeError::MalformedPair);
        },
        Some(index) => index,
    };
    let row = match find_attr(&data.doc, "id", pair) {
        None => {
            return Err(ScrapeError::MissingPair);
        },
        Some(row) => row,
    };
    let bid = match find_class_below(data, row, value_class(index.as_str(), "-bid").as_str()) {
        None => {
            return Err(ScrapeError::MissingBid);
        },
        Some(bid) => bid,
    };
    let label = match find_named_below(data, row, "a") {
        None => {
            return Err(ScrapeError::MissingLabel);
        },
        Some(label) => label,
    };
    let ask = match find_class_below(data, row, value_class(index.as_str(), "-ask").as_str()) {
        None => {
            return Err(ScrapeError::MissingAsk);
        },
        Some(ask) => ask,
    };
    let high = match find_class_below(data, row, value_class(index.as_str(), "-high").as_str()) {
        None => {
            return Err(ScrapeError::MissingHigh);
        },
        Some(high) => high,
    };
    let low = match find_class_below(data, row, value_class(index.as_str(), "-low").as_str()) {
        None => {
            return Err(ScrapeError::MissingLow);
        },
        Some(low) => low,
    };
    Ok(
        PairText {
            pair: text_of(data, label),
            bid: text_of(data, bid),
            ask: text_of(data, ask),
            high: text_of(data, high),
            low: text_of(data, low),
        },
    )
}

/// Reads the texts of the given pairs from a parsed page, and stops at the
/// first pair that is not complete.
pub fn extract_pairs(data: &ScrapedData, pairs: &Vec<String>) -> (found: Result<
    Vec<PairText>,
    ScrapeError,
>)
    requires
        data.parsed(),
    ensures
        match found {
            Ok(list) => pairs_texts(data.doc, texts(pairs@)) == Ok::<Seq<PairTextView>, ScrapeError>(
                pair_views(list@),
            ),
            Err(e) => pairs_texts(data.doc, texts(pairs@)) == Err::<Seq<PairTextView>, ScrapeError>(
                e,
            ),
        },
{
    let mut list: Vec<PairText> = Vec::new();
    let mut i: usize = 0;
    assert(pair_views(list@) =~= Seq::empty());
    while i < pairs.len()
        invariant
            i <= pairs@.len(),
            data.parsed(),
            pairs_texts(data.doc, texts(pairs@).take(i as int)) == Ok::<Seq<PairTextView>, ScrapeError>(
                pair_views(list@),
            ),
        decreases pairs@.len() - i,
    {
        let ghost next = texts(pairs@).take(i + 1);
        assert(next.drop_last() =~= texts(pairs@).take(i as int));
        assert(next.last() == pairs@[i as int]@);
        match extract_pair(data, pairs[i].as_str()) {
            Err(e) => {
                proof {
                    lemma_error_stays(data.doc, texts(pairs@), i + 1);
                }
                return Err(e);
            },
            Ok(found) => {
                let ghost before = pair_views(list@);
                list.push(found);
                assert(pair_views(list@) =~= before.push(found@));
            },
        }
        i += 1;
    }
    assert(texts(pairs@).take(pairs@.len() as int) =~= texts(pairs@));
    Ok(list)
}

/// Once a pair is not complete, the pairs behind it change nothing.
proof fn lemma_error_stays(doc: Document, pairs: Seq<Seq<char>>, n: int)
    requires
        0 <= n <= pairs.len(),
        pairs_texts(doc, pairs.take(n)) is Err,
    ensures
        pairs_texts(doc, pairs) == pairs_texts(doc, pairs.take(n)),
    decreases pairs.len() - n,
{
    if n < pairs.len() {
        assert(pairs.take(n + 1).drop_last() =~= pairs.take(n));
        lemma_error_stays(doc, pairs, n + 1);
    } else {
        assert(pairs.take(n) =~= pairs);
    }
}

/// Reads the texts of all pairs of a parsed page.
pub fn extract_document(data: &ScrapedData) -> (found: Result<Vec<PairText>, ScrapeError>)
    requires
        data.parsed(),
    ensures
        match found {
            Ok(list) => document_texts(data.doc) == Ok::<Seq<PairTextView>, ScrapeError>(
                pair_views(list@),
            ),
            Err(e) => document_texts(data.doc) == Err::<Seq<PairTextView>, ScrapeError>(e),
        },
{
    let table = match find_class(&data.doc, "crossRatesTbl") {
        None => {
            return Err(ScrapeError::MissingTable);
        },
        Some(table) => table,
    };
    let panel = inner_html_of(data, table);
    match pair_identifiers(find_all("pair_\\d+", panel.as_str())) {
        Err(e) => Err(e),
        Ok(pairs) => extract_pairs(data, &pairs),
    }
}

/// Reads the texts of all pairs from the body of the quotes page.
///
/// An empty body gives an empty list. Otherwise the body is parsed, and the
/// texts of each pair of its table are read in the order in which the pairs
/// first occur. The first pair that is not complete ends the reading with
/// the error that names what is missing.
pub fn scrape_by_url(resp_text: String) -> (found: Result<Vec<PairText>, ScrapeError>)
    ensures
        match found {
            Ok(list) => page_texts(resp_text@) == Ok::<Seq<PairTextView>, ScrapeError>(
                pair_views(list@),
            ),
            Err(e) => page_texts(resp_text@) == Err::<Seq<PairTextView>, ScrapeError>(e),
        },
        resp_text@.len() == 0 ==> (found matches Ok(list) && list@.len() == 0),
{
    if resp_text.as_str().is_empty() {
        let list: Vec<PairText> = Vec::new();
        assert(pair_views(list@) =~= Seq::empty());
        return Ok(list);
    }
    if resp_text.as_str().as_bytes().len() > MAX_MARKUP_BYTES {
        return Err(ScrapeError::TooLarge);
    }
    let data = ScrapedData::new(resp_text);
    extract_document(&data)
}

} // verus!
