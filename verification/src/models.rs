//! Rows of the rate store.

use vstd::prelude::*;

verus! {

/// The mathematical content of a row: its date, its base, its currency and
/// its rate.
pub struct RateRow {
    pub rate_dt: Seq<char>,
    pub base: Seq<char>,
    pub currency: Seq<char>,
    pub conversion_rate: u64,
}

/// The mathematical content of a row read from the rate store: the row, and
/// the number that the store gave it.
pub struct StoredRow {
    pub id: i32,
    pub row: RateRow,
}

/// A row read from the rate store.
#[derive(Clone, Debug)]
pub struct Rates {
    pub id: i32,
    /// The day of the rate, written `YYYY-MM-DD`.
    pub rate_dt: String,
    pub base: String,
    pub currency: String,
    /// Bit pattern of the rate as a binary64 number.
    pub conversion_rate: u64,
}

/// A row that has not been stored yet.
#[derive(Clone, Debug)]
pub struct NewRate {
    /// The day of the rate, written `YYYY-MM-DD`.
    pub rate_dt: String,
    pub base: String,
    pub currency: String,
    /// Bit pattern of the rate as a binary64 number.
    pub conversion_rate: u64,
}

impl View for Rates {
    type V = StoredRow;

    open spec fn view(&self) -> StoredRow {
        StoredRow {
            id: self.id,
            row: RateRow {
                rate_dt: self.rate_dt@,
                base: self.base@,
                currency: self.currency@,
                conversion_rate: self.conversion_rate,
            },
        }
    }
}

impl View for NewRate {
    type V = RateRow;

    open spec fn view(&self) -> RateRow {
        RateRow {
            rate_dt: self.rate_dt@,
            base: self.base@,
            currency: self.currency@,
            conversion_rate: self.conversion_rate,
        }
    }
}

/// The rows of a list of stored rows, without the numbers that the store
/// gave them.
pub open spec fn rows_view(rows: Seq<Rates>) -> Seq<RateRow> {
    Seq::new(rows.len(), |i: int| rows[i]@.row)
}

/// The contents of a batch of rows to store.
pub open spec fn batch_view(batch: Seq<NewRate>) -> Seq<RateRow> {
    Seq::new(batch.len(), |i: int| batch[i]@)
}

} // verus!
