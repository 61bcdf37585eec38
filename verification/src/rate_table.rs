//! A mapping from currency code to rate, with each code held once.

use crate::models::{RateRow, Rates, rows_view};
use vstd::prelude::*;

verus! {

/// One currency and its rate.
#[derive(Clone, Debug)]
pub struct RateEntry {
    pub currency: String,
    /// Bit pattern of the rate as a binary64 number.
    pub rate: u64,
}

/// The rates of one day, keyed by currency code.
#[derive(Clone, Debug)]
pub struct RateTable {
    entries: Vec<RateEntry>,
}

/// True when `code` is the currency of one of the first `n` entries.
pub open spec fn holds_code(entries: Seq<RateEntry>, n: int, code: Seq<char>) -> bool {
    exists|i: int| 0 <= i < n && #[trigger] entries[i].currency@ == code
}

/// The place of `code` among the entries.
pub open spec fn place_of(entries: Seq<RateEntry>, code: Seq<char>) -> int {
    choose|i: int| 0 <= i < entries.len() && #[trigger] entries[i].currency@ == code
}

/// No currency occurs twice.
pub open spec fn distinct_codes(entries: Seq<RateEntry>) -> bool {
    forall|i: int, j: int|
        0 <= i < j < entries.len() ==> #[trigger] entries[i].currency@ != #[trigger] entries[j].currency@
}

/// The mapping that a list of entries with distinct currencies stands for.
pub open spec fn entries_map(entries: Seq<RateEntry>) -> Map<Seq<char>, u64> {
    Map::new(
        |code: Seq<char>| holds_code(entries, entries.len() as int, code),
        |code: Seq<char>| entries[place_of(entries, code)].rate,
    )
}

impl RateTable {
    /// The entries in the order in which their currencies were first seen.
    pub closed spec fn entries(&self) -> Seq<RateEntry> {
        self.entries@
    }

    /// Each currency is held once.
    pub open spec fn wf(&self) -> bool {
        distinct_codes(self.entries())
    }

    /// An empty table.
    pub fn new() -> (table: RateTable)
        ensures
            table.wf(),
            table@ == Map::<Seq<char>, u64>::empty(),
            table.entries().len() == 0,
    {
        let table = RateTable { entries: Vec::new() };
        assert(table@ =~= Map::<Seq<char>, u64>::empty());
        table
    }

    /// The number of currencies held.
    pub fn len(&self) -> (n: usize)
        ensures
            n == self.entries().len(),
    {
        self.entries.len()
    }

    /// The entry at place `i`.
    pub fn entry(&self, i: usize) -> (e: &RateEntry)
        requires
            i < self.entries().len(),
        ensures
            *e == self.entries()[i as int],
    {
        &self.entries[i]
    }

    /// The rate held for `currency`, if there is one.
    pub fn get(&self, currency: &str) -> (rate: Option<u64>)
        requires
            self.wf(),
        ensures
            rate == (if self@.contains_key(currency@) {
                Some(self@[currency@])
            } else {
                None
            }),
    {
        let wanted = String::from_str(currency);
        let mut i: usize = 0;
        while i < self.entries.len()
            invariant
                i <= self.entries@.len(),
                wanted@ == currency@,
                distinct_codes(self.entries@),
                !holds_code(self.entries@, i as int, currency@),
            decreases self.entries@.len() - i,
        {
            if self.entries[i].currency == wanted {
                proof {
                    lemma_entry_rate(self.entries@, i as int);
                }
                return Some(self.entries[i].rate);
            }
            i += 1;
        }
        None
    }

    /// Sets the rate of `currency`, replacing the rate held for it before.
    pub fn insert(&mut self, currency: String, rate: u64)
        requires
            old(self).wf(),
        ensures
            final(self).wf(),
            final(self)@ == old(self)@.insert(currency@, rate),
    {
        let mut i: usize = 0;
        while i < self.entries.len()
            invariant
                i <= self.entries@.len(),
                self.entries@ == old(self).entries@,
                distinct_codes(self.entries@),
                !holds_code(self.entries@, i as int, currency@),
            decreases self.entries@.len() - i,
        {
            if self.entries[i].currency == currency {
                let ghost before = self.entries@;
                self.entries.set(i, RateEntry { currency, rate });
                proof {
                    lemma_replace(before, i as int, self.entries@[i as int]);
                }
                return ;
            }
            i += 1;
        }
        let ghost before = self.entries@;
        self.entries.push(RateEntry { currency, rate });
        proof {
            lemma_append(before, self.entries@[before.len() as int]);
        }
    }
}

/// The mapping built by inserting the rows from place `from` up to, not
/// including, place `to`, in that order: of two rows with one currency the
/// later one gives the rate.
pub open spec fn fold_rates(rows: Seq<RateRow>, from: int, to: int) -> Map<Seq<char>, u64>
    decreases to - from,
{
    if to <= from {
        Map::empty()
    } else {
        fold_rates(rows, from, to - 1).insert(rows[to - 1].currency, rows[to - 1].conversion_rate)
    }
}

/// A row in the range of a fold gives its currency a rate, and the rate is
/// its own unless a later row of the range carries the same currency.
pub proof fn lemma_fold_holds_row(rows: Seq<RateRow>, from: int, to: int, j: int)
    requires
        0 <= from <= j < to <= rows.len(),
    ensures
        fold_rates(rows, from, to).contains_key(rows[j].currency),
        (forall|k: int| j < k < to ==> (#[trigger] rows[k]).currency != rows[j].currency) ==> fold_rates(
            rows,
            from,
            to,
        )[rows[j].currency] == rows[j].conversion_rate,
    decreases to - from,
{
    if j < to - 1 {
        lemma_fold_holds_row(rows, from, to - 1, j);
        if forall|k: int| j < k < to ==> (#[trigger] rows[k]).currency != rows[j].currency {
            assert(rows[to - 1].currency != rows[j].currency);
        }
    }
}

/// A fold holds no currency but those of the rows in its range.
pub proof fn lemma_fold_keys(rows: Seq<RateRow>, from: int, to: int, code: Seq<char>)
    requires
        0 <= from <= to <= rows.len(),
        fold_rates(rows, from, to).contains_key(code),
    ensures
        exists|j: int| from <= j < to && (#[trigger] rows[j]).currency == code,
    decreases to - from,
{
    if from < to {
        if rows[to - 1].currency != code {
            lemma_fold_keys(rows, from, to - 1, code);
        }
    }
}

/// Folds all of `rows` into a table keyed by currency.
pub fn fold_rows(rows: &Vec<Rates>) -> (table: RateTable)
    ensures
        table.wf(),
        table@ == fold_rates(rows_view(rows@), 0, rows@.len() as int),
{
    let mut table = RateTable::new();
    let mut i: usize = 0;
    while i < rows.len()
        invariant
            i <= rows@.len(),
            table.wf(),
            table@ == fold_rates(rows_view(rows@), 0, i as int),
        decreases rows@.len() - i,
    {
        table.insert(rows[i].currency.clone(), rows[i].conversion_rate);
        i += 1;
    }
    table
}

impl View for RateTable {
    type V = Map<Seq<char>, u64>;

    open spec fn view(&self) -> Map<Seq<char>, u64> {
        entries_map(self.entries())
    }
}

/// With distinct currencies, the entry at a place gives the rate of its
/// currency.
pub proof fn lemma_entry_rate(entries: Seq<RateEntry>, i: int)
    requires
        distinct_codes(entries),
        0 <= i < entries.len(),
    ensures
        entries_map(entries).contains_key(entries[i].currency@),
        entries_map(entries)[entries[i].currency@] == entries[i].rate,
{
    let code = entries[i].currency@;
    assert(holds_code(entries, entries.len() as int, code));
    let p = place_of(entries, code);
    assert(p == i);
}

/// Replacing the rate at a place sets the rate of that currency.
proof fn lemma_replace(entries: Seq<RateEntry>, i: int, e: RateEntry)
    requires
        distinct_codes(entries),
        0 <= i < entries.len(),
        e.currency@ == entries[i].currency@,
    ensures
        distinct_codes(entries.update(i, e)),
        entries_map(entries.update(i, e)) == entries_map(entries).insert(e.currency@, e.rate),
{
    let after = entries.update(i, e);
    assert forall|a: int, b: int| 0 <= a < b < after.len() implies #[trigger] after[a].currency@
        != #[trigger] after[b].currency@ by {
        assert(after[a].currency@ == entries[a].currency@);
        assert(after[b].currency@ == entries[b].currency@);
    }
    let lhs = entries_map(after);
    let rhs = entries_map(entries).insert(e.currency@, e.rate);
    assert forall|code: Seq<char>| lhs.contains_key(code) <==> rhs.contains_key(code) by {
        if lhs.contains_key(code) {
            let k = choose|k: int| 0 <= k < after.len() && #[trigger] after[k].currency@ == code;
            assert(entries[k].currency@ == code);
        }
        if rhs.contains_key(code) {
            if code == e.currency@ {
                assert(after[i].currency@ == code);
            } else {
                let k = choose|k: int|
                    0 <= k < entries.len() && #[trigger] entries[k].currency@ == code;
                assert(after[k].currency@ == code);
            }
        }
    }
    assert forall|code: Seq<char>| lhs.contains_key(code) implies lhs[code] == rhs[code] by {
        let k = choose|k: int| 0 <= k < after.len() && #[trigger] after[k].currency@ == code;
        lemma_entry_rate(after, k);
        if k != i {
            assert(entries[k].currency@ == code);
            lemma_entry_rate(entries, k);
        }
    }
    assert(lhs =~= rhs);
}

/// Appending a currency that is not held adds it.
proof fn lemma_append(entries: Seq<RateEntry>, e: RateEntry)
    requires
        distinct_codes(entries),
        !holds_code(entries, entries.len() as int, e.currency@),
    ensures
        distinct_codes(entries.push(e)),
        entries_map(entries.push(e)) == entries_map(entries).insert(e.currency@, e.rate),
{
    let after = entries.push(e);
    assert forall|a: int, b: int| 0 <= a < b < after.len() implies #[trigger] after[a].currency@
        != #[trigger] after[b].currency@ by {
        if b == entries.len() {
            assert(after[a].currency@ == entries[a].currency@);
            if after[a].currency@ == e.currency@ {
                assert(holds_code(entries, entries.len() as int, e.currency@));
            }
        } else {
            assert(after[a].currency@ == entries[a].currency@);
            assert(after[b].currency@ == entries[b].currency@);
        }
    }
    let lhs = entries_map(after);
    let rhs = entries_map(entries).insert(e.currency@, e.rate);
    assert forall|code: Seq<char>| lhs.contains_key(code) <==> rhs.contains_key(code) by {
        if lhs.contains_key(code) {
            let k = choose|k: int| 0 <= k < after.len() && #[trigger] after[k].currency@ == code;
            if k < entries.len() {
                assert(entries[k].currency@ == code);
            }
        }
        if rhs.contains_key(code) {
            if code == e.currency@ {
                assert(after[entries.len() as int].currency@ == code);
            } else {
                let k = choose|k: int|
                    0 <= k < entries.len() && #[trigger] entries[k].currency@ == code;
                assert(after[k].currency@ == code);
            }
        }
    }
    assert forall|code: Seq<char>| lhs.contains_key(code) implies lhs[code] == rhs[code] by {
        let k = choose|k: int| 0 <= k < after.len() && #[trigger] after[k].currency@ == code;
        lemma_entry_rate(after, k);
        if k < entries.len() {
            assert(entries[k].currency@ == code);
            lemma_entry_rate(entries, k);
        }
    }
    assert(lhs =~= rhs);
}

} // verus!
