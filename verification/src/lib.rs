//! Foreign-exchange rate aggregation: the decision of whether today's rates
//! are served from the rate store or fetched, the reconstruction of a dense
//! per-day series from stored rows, and the extraction of live quotes from
//! markup.
//!
//! Rates and quotes are carried as the bit pattern of an IEEE-754 binary64
//! number. The library moves these values and never computes with them.

pub mod models;
pub mod rate_table;
pub mod calendar;
pub mod weekly;
pub mod markup;
pub mod rate_scraper;
pub mod json;
pub mod daily;
