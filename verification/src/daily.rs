//! The rates of the current day: served from the rate store where the store
//! holds them, fetched and stored where it does not.
//!
//! The library decides and the caller acts. A request moves through
//! `daily_rates` step by step: each step takes what the caller's last action
//! brought back and names the next action.

use crate::json::{
    entries_view, json_document, json_member, json_number_entries, json_text, member,
    number_entries, parse_json, text_of,
};
use crate::models::{NewRate, RateRow, Rates, batch_view, rows_view};
use crate::rate_table::{RateTable, fold_rates, fold_rows};
use serde_json::Value;
use vstd::prelude::*;

verus! {

/// What the caller is set up with.
pub struct Config {
    /// The address of the upstream provider, up to the access key.
    pub daily_rates_url: String,
    /// The access key of the upstream provider.
    pub api_key: String,
    /// The currency that fetched rates are relative to.
    pub base_currency: String,
}

/// The rates of a day, as they are answered from the rate store.
#[derive(Debug)]
pub struct RatesMap {
    pub success: bool,
    pub timestamp: i64,
    pub base: String,
    pub date: String,
    pub rates: RateTable,
}

/// The mathematical content of a `RatesMap`.
pub struct RatesMapView {
    pub success: bool,
    pub timestamp: i64,
    pub base: Seq<char>,
    pub date: Seq<char>,
    pub rates: Map<Seq<char>, u64>,
}

impl View for RatesMap {
    type V = RatesMapView;

    open spec fn view(&self) -> RatesMapView {
        RatesMapView {
            success: self.success,
            timestamp: self.timestamp,
            base: self.base@,
            date: self.date@,
            rates: self.rates@,
        }
    }
}

/// Why a request for the day's rates failed.
#[derive(Clone, Copy, Debug, PartialEq, Eq, Structural)]
pub enum DailyError {
    /// The upstream provider could not be reached.
    Transport,
    /// The rate store failed.
    Store,
    /// The upstream body is no JSON document.
    MalformedJson,
    /// The upstream document has no object `rates`.
    MissingRates,
    /// The upstream document has no string `date`.
    MissingDate,
    /// A member of `rates` is no number.
    RateNotNumber,
    /// The caller reported something that the request was not waiting for.
    OutOfTurn,
}

/// Where a request stands.
#[derive(Clone, Copy, Debug, PartialEq, Eq, Structural)]
pub enum DailyState {
    /// Nothing has been done yet.
    Idle,
    /// The rate store is being asked how many rows it holds for the day.
    Counting,
    /// The rate store is being asked for the day's rows.
    Loading,
    /// The upstream provider is being asked.
    Fetching,
    /// The request has been answered.
    Done,
}

/// What the caller reports.
pub enum DailyEvent {
    /// A request has arrived.
    Requested,
    /// The rate store holds this many rows for the day.
    Counted(i64),
    /// The rate store's rows for the day.
    Loaded { date: String, rows: Vec<Rates>, timestamp: i64 },
    /// The body that the upstream provider sent.
    Fetched(String),
    /// The upstream provider could not be reached.
    FetchFailed,
    /// The rate store failed.
    StoreFailed,
}

/// What the caller is to do next.
pub enum DailyAction {
    /// Ask the rate store how many rows it holds for the day.
    CountToday,
    /// Read the day's rows from the rate store.
    LoadToday,
    /// Fetch the body at this address.
    Fetch(String),
    /// Answer with rates read from the rate store.
    Reply(RatesMap),
    /// Store the batch in one write and answer with the fetched document.
    StoreAndReply { batch: Vec<NewRate>, body: Value },
    /// Fail the request.
    Fail(DailyError),
}

/// The mathematical content of an event.
pub enum DailyEventView {
    Requested,
    Counted(i64),
    Loaded { date: Seq<char>, rows: Seq<RateRow>, timestamp: i64 },
    Fetched(Seq<char>),
    FetchFailed,
    StoreFailed,
}

/// The mathematical content of an action.
pub enum DailyActionView {
    CountToday,
    LoadToday,
    Fetch(Seq<char>),
    Reply(RatesMapView),
    StoreAndReply { batch: Seq<RateRow>, body: Value },
    Fail(DailyError),
}

impl View for DailyEvent {
    type V = DailyEventView;

    open spec fn view(&self) -> DailyEventView {
        match *self {
            DailyEvent::Requested => DailyEventView::Requested,
            DailyEvent::Counted(count) => DailyEventView::Counted(count),
            DailyEvent::Loaded { date, rows, timestamp } => DailyEventView::Loaded {
                date: date@,
                rows: rows_view(rows@),
                timestamp,
            },
            DailyEvent::Fetched(body) => DailyEventView::Fetched(body@),
            DailyEvent::FetchFailed => DailyEventView::FetchFailed,
            DailyEvent::StoreFailed => DailyEventView::StoreFailed,
        }
    }
}

impl View for DailyAction {
    type V = DailyActionView;

    open spec fn view(&self) -> DailyActionView {
        match *self {
            DailyAction::CountToday => DailyActionView::CountToday,
            DailyAction::LoadToday => DailyActionView::LoadToday,
            DailyAction::Fetch(endpoint) => DailyActionView::Fetch(endpoint@),
            DailyAction::Reply(map) => DailyActionView::Reply(map@),
            DailyAction::StoreAndReply { batch, body } => DailyActionView::StoreAndReply {
                batch: batch_view(batch@),
                body,
            },
            DailyAction::Fail(e) => DailyActionView::Fail(e),
        }
    }
}

/// Whether the rate store holds the day's rates. A single row is taken for
/// the trace of a write that did not finish, and does not count.
pub fn exist_today_rate(count: i64) -> (cached: bool)
    ensures
        cached == (count > 1),
{
    count > 1
}

/// The address of the upstream provider's document.
pub open spec fn endpoint_of(url: Seq<char>, key: Seq<char>) -> Seq<char> {
    url + key + "&format=1"@
}

/// The address of the upstream provider's document.
pub fn api_endpoint(daily_rates_url: &str, api_key: &str) -> (endpoint: String)
    ensures
        endpoint@ == endpoint_of(daily_rates_url@, api_key@),
{
    let mut endpoint = String::from_str(daily_rates_url);
    endpoint.append(api_key);
    endpoint.append("&format=1");
    endpoint
}

/// The answer for a day whose rows were read from the rate store.
pub open spec fn stored_rates(date: Seq<char>, rows: Seq<RateRow>, timestamp: i64) -> RatesMapView {
    RatesMapView {
        success: true,
        timestamp,
        base: "EUR"@,
        date,
        rates: fold_rates(rows, 0, rows.len() as int),
    }
}

/// Folds the rows that the rate store holds for a day into the answer.
pub fn today_rates(date: String, rows: &Vec<Rates>, timestamp: i64) -> (map: RatesMap)
    ensures
        map@ == stored_rates(date@, rows_view(rows@), timestamp),
        map.rates.wf(),
{
    RatesMap {
        success: true,
        timestamp,
        base: String::from_str("EUR"),
        date,
        rates: fold_rows(rows),
    }
}

/// One row for each member, in the members' order, or `RateNotNumber` where
/// a member is no number.
pub open spec fn batch_of(
    entries: Seq<(Seq<char>, Option<u64>)>,
    date: Seq<char>,
    base: Seq<char>,
) -> Result<Seq<RateRow>, DailyError>
    decreases entries.len(),
{
    if entries.len() == 0 {
        Ok(Seq::empty())
    } else {
        match batch_of(entries.drop_last(), date, base) {
            Err(e) => Err(e),
            Ok(before) => match entries.last().1 {
                None => Err(DailyError::RateNotNumber),
                Some(bits) => Ok(
                    before.push(
                        RateRow {
                            rate_dt: date,
                            base,
                            currency: entries.last().0,
                            conversion_rate: bits,
                        },
                    ),
                ),
            },
        }
    }
}

/// The rows to store for what was read from an upstream document: its
/// members of `rates` and its `date`.
pub open spec fn new_rates_of(
    entries: Option<Seq<(Seq<char>, Option<u64>)>>,
    date: Option<Seq<char>>,
    base: Seq<char>,
) -> Result<Seq<RateRow>, DailyError> {
    match entries {
        None => Err(DailyError::MissingRates),
        Some(list) => match date {
            None => Err(DailyError::MissingDate),
            Some(day) => batch_of(list, day, base),
        },
    }
}

/// A batch has one row for each member, with the member's currency and
/// rate, the document's date and the base currency.
pub proof fn lemma_batch_rows(entries: Seq<(Seq<char>, Option<u64>)>, date: Seq<char>, base: Seq<char>)
    ensures
        batch_of(entries, date, base) is Ok <==> forall|i: int|
            0 <= i < entries.len() ==> (#[trigger] entries[i]).1 is Some,
        batch_of(entries, date, base) matches Ok(rows) ==> {
            &&& rows.len() == entries.len()
            &&& forall|i: int|
                0 <= i < rows.len() ==> #[trigger] rows[i] == (RateRow {
                    rate_dt: date,
                    base,
                    currency: entries[i].0,
                    conversion_rate: entries[i].1.unwrap(),
                })
        },
    decreases entries.len(),
{
    if entries.len() > 0 {
        let head = entries.drop_last();
        lemma_batch_rows(head, date, base);
        if batch_of(entries, date, base) is Ok {
            assert forall|i: int| 0 <= i < entries.len() implies (#[trigger] entries[i]).1 is Some by {
                if i < head.len() {
                    assert(head[i] == entries[i]);
                }
            }
        }
        if forall|i: int| 0 <= i < entries.len() ==> (#[trigger] entries[i]).1 is Some {
            assert forall|i: int| 0 <= i < head.len() implies (#[trigger] head[i]).1 is Some by {
                assert(head[i] == entries[i]);
            }
            assert(entries.last() == entries[entries.len() - 1]);
        }
    }
}

/// What was read of an object's members, as its contents.
pub open spec fn members_view(entries: Option<Vec<(String, Option<u64>)>>) -> Option<
    Seq<(Seq<char>, Option<u64>)>,
> {
    match entries {
        Some(list) => Some(entries_view(list@)),
        None => None,
    }
}

/// What was read of a string, as its contents.
pub open spec fn text_view(text: Option<String>) -> Option<Seq<char>> {
    match text {
        Some(t) => Some(t@),
        None => None,
    }
}

/// Builds the rows to store from what was read from an upstream document.
///
/// `entries` are the members of the document's object `rates`, `None` where
/// it has none; `date` is its string `date`, `None` where it has none. There
/// is one row for each member, in the members' order. A document without
/// `rates`, without `date`, or with a member that is no number gives no rows
/// but the error that names the first of these.
pub fn new_rates(entries: Option<Vec<(String, Option<u64>)>>, date: Option<String>, base: &str) -> (batch:
    Result<Vec<NewRate>, DailyError>)
    ensures
        match batch {
            Ok(rows) => new_rates_of(members_view(entries), text_view(date), base@) == Ok::<
                Seq<RateRow>,
                DailyError,
            >(batch_view(rows@)),
            Err(e) => new_rates_of(members_view(entries), text_view(date), base@) == Err::<
                Seq<RateRow>,
                DailyError,
            >(e),
        },
{
    let list = match entries {
        None => {
            return Err(DailyError::MissingRates);
        },
        Some(list) => list,
    };
    let day = match date {
        None => {
            return Err(DailyError::MissingDate);
        },
        Some(day) => day,
    };
    let ghost members = entries_view(list@);
    let mut rows: Vec<NewRate> = Vec::new();
    let mut i: usize = 0;
    assert(batch_view(rows@) =~= Seq::empty());
    while i < list.len()
        invariant
            i <= list@.len(),
            entries == Some(list),
            date == Some(day),
            members == entries_view(list@),
            batch_of(members.take(i as int), day@, base@) == Ok::<Seq<RateRow>, DailyError>(
                batch_view(rows@),
            ),
        decreases list@.len() - i,
    {
        let ghost next = members.take(i + 1);
        assert(next.drop_last() =~= members.take(i as int));
        assert(next.last() == members[i as int]);
        match list[i].1 {
            None => {
                proof {
                    assert(members[i as int].1 is None);
                    assert(batch_of(next, day@, base@) == Err::<Seq<RateRow>, DailyError>(
                        DailyError::RateNotNumber,
                    ));
                    lemma_batch_error_stays(members, day@, base@, i + 1);
                }
                return Err(DailyError::RateNotNumber);
            },
            Some(bits) => {
                let ghost before = batch_view(rows@);
                let row = NewRate {
                    rate_dt: day.clone(),
                    base: String::from_str(base),
                    currency: list[i].0.clone(),
                    conversion_rate: bits,
                };
                rows.push(row);
                assert(batch_view(rows@) =~= before.push(row@));
            },
        }
        i += 1;
    }
    assert(members.take(list@.len() as int) =~= members);
    Ok(rows)
}

/// Once a member is no number, the members behind it change nothing.
proof fn lemma_batch_error_stays(
    entries: Seq<(Seq<char>, Option<u64>)>,
    date: Seq<char>,
    base: Seq<char>,
    n: int,
)
    requires
        0 <= n <= entries.len(),
        batch_of(entries.take(n), date, base) is Err,
    ensures
        batch_of(entries, date, base) == batch_of(entries.take(n), date, base),
    decreases entries.len() - n,
{
    if n < entries.len() {
        assert(entries.take(n + 1).drop_last() =~= entries.take(n));
        lemma_batch_error_stays(entries, date, base, n + 1);
    } else {
        assert(entries.take(n) =~= entries);
    }
}

/// What an upstream body gives: the rows to store and the parsed document,
/// or the reason why the body is of no use.
pub open spec fn fetched_batch(body: Seq<char>, base: Seq<char>) -> Result<
    (Seq<RateRow>, Value),
    DailyError,
> {
    match json_document(body) {
        None => Err(DailyError::MalformedJson),
        Some(document) => match new_rates_of(
            json_number_entries(json_member(document, "rates"@)),
            json_text(json_member(document, "date"@)),
            base,
        ) {
            Err(e) => Err(e),
            Ok(rows) => Ok((rows, document)),
        },
    }
}

/// Parses an upstream body and builds the rows to store from it.
pub fn read_fetched(body: String, base: &str) -> (read: Result<(Vec<NewRate>, Value), DailyError>)
    ensures
        match read {
            Ok((rows, document)) => fetched_batch(body@, base@) == Ok::<
                (Seq<RateRow>, Value),
                DailyError,
            >((batch_view(rows@), document)),
            Err(e) => fetched_batch(body@, base@) == Err::<(Seq<RateRow>, Value), DailyError>(e),
        },
{
    let document = match parse_json(body) {
        Err(_) => {
            return Err(DailyError::MalformedJson);
        },
        Ok(document) => document,
    };
    let entries = number_entries(member(&document, "rates"));
    let date = text_of(member(&document, "date"));
    match new_rates(entries, date, base) {
        Err(e) => Err(e),
        Ok(rows) => Ok((rows, document)),
    }
}

/// The next state of a request and the action to take, for what the caller
/// reports.
pub open spec fn daily_step(
    url: Seq<char>,
    key: Seq<char>,
    base: Seq<char>,
    state: DailyState,
    event: DailyEventView,
) -> (DailyState, DailyActionView) {
    match (state, event) {
        (DailyState::Idle, DailyEventView::Requested) => (
            DailyState::Counting,
            DailyActionView::CountToday,
        ),
        (DailyState::Counting, DailyEventView::Counted(count)) => if count > 1 {
            (DailyState::Loading, DailyActionView::LoadToday)
        } else {
            (DailyState::Fetching, DailyActionView::Fetch(endpoint_of(url, key)))
        },
        (DailyState::Counting, DailyEventView::StoreFailed) => (
            DailyState::Done,
            DailyActionView::Fail(DailyError::Store),
        ),
        (DailyState::Loading, DailyEventView::Loaded { date, rows, timestamp }) => (
            DailyState::Done,
            DailyActionView::Reply(stored_rates(date, rows, timestamp)),
        ),
        (DailyState::Loading, DailyEventView::StoreFailed) => (
            DailyState::Done,
            DailyActionView::Fail(DailyError::Store),
        ),
        (DailyState::Fetching, DailyEventView::Fetched(body)) => match fetched_batch(body, base) {
            Ok((batch, document)) => (
                DailyState::Done,
                DailyActionView::StoreAndReply { batch, body: document },
            ),
            Err(e) => (DailyState::Done, DailyActionView::Fail(e)),
        },
        (DailyState::Fetching, DailyEventView::FetchFailed) => (
            DailyState::Done,
            DailyActionView::Fail(DailyError::Transport),
        ),
        _ => (DailyState::Done, DailyActionView::Fail(DailyError::OutOfTurn)),
    }
}

/// Takes a request for the day's rates one step further.
///
/// A request starts `Idle` with `Requested`. The rate store is asked for the
/// number of rows of the day. With more than one row the day's rows are read
/// and folded into the answer, and nothing is fetched. Otherwise the upstream
/// document is fetched, and the rows built from it are handed out to be
/// stored in one write, together with the parsed document, which is the
/// answer. A failure of the store or of the fetch, a body that is of no use,
/// and a report that the request was not waiting for each end the request.
pub fn daily_rates(config: &Config, state: DailyState, event: DailyEvent) -> (next: (
    DailyState,
    DailyAction,
))
    ensures
        (next.0, next.1@) == daily_step(
            config.daily_rates_url@,
            config.api_key@,
            config.base_currency@,
            state,
            event@,
        ),
        next.1 matches DailyAction::Reply(map) ==> map.rates.wf(),
{
    match state {
        DailyState::Idle => match event {
            DailyEvent::Requested => (DailyState::Counting, DailyAction::CountToday),
            _ => (DailyState::Done, DailyAction::Fail(DailyError::OutOfTurn)),
        },
        DailyState::Counting => match event {
            DailyEvent::Counted(count) => {
                if exist_today_rate(count) {
                    (DailyState::Loading, DailyAction::LoadToday)
                } else {
                    let endpoint = api_endpoint(
                        config.daily_rates_url.as_str(),
                        config.api_key.as_str(),
                    );
                    (DailyState::Fetching, DailyAction::Fetch(endpoint))
                }
            },
            DailyEvent::StoreFailed => (DailyState::Done, DailyAction::Fail(DailyError::Store)),
            _ => (DailyState::Done, DailyAction::Fail(DailyError::OutOfTurn)),
        },
        DailyState::Loading => match event {
            DailyEvent::Loaded { date, rows, timestamp } => {
                let map = today_rates(date, &rows, timestamp);
                (DailyState::Done, DailyAction::Reply(map))
            },
            DailyEvent::StoreFailed => (DailyState::Done, DailyAction::Fail(DailyError::Store)),
            _ => (DailyState::Done, DailyAction::Fail(DailyError::OutOfTurn)),
        },
        DailyState::Fetching => match event {
            DailyEvent::Fetched(body) => match read_fetched(body, config.base_currency.as_str()) {
                Ok((batch, document)) => (
                    DailyState::Done,
                    DailyAction::StoreAndReply { batch, body: document },
                ),
                Err(e) => (DailyState::Done, DailyAction::Fail(e)),
            },
            DailyEvent::FetchFailed => (DailyState::Done, DailyAction::Fail(DailyError::Transport)),
            _ => (DailyState::Done, DailyAction::Fail(DailyError::OutOfTurn)),
        },
        DailyState::Done => (DailyState::Done, DailyAction::Fail(DailyError::OutOfTurn)),
    }
}

/// Where the rate store holds more than one row for the day, the day's rows
/// are read from the store and nothing is fetched.
pub proof fn lemma_cached_day_is_read(url: Seq<char>, key: Seq<char>, base: Seq<char>, count: i64)
    requires
        count > 1,
    ensures
        daily_step(url, key, base, DailyState::Counting, DailyEventView::Counted(count)) == (
            DailyState::Loading,
            DailyActionView::LoadToday,
        ),
{
}

/// Nothing is fetched but for a day of which the rate store holds at most
/// one row.
pub proof fn lemma_fetch_means_not_cached(
    url: Seq<char>,
    key: Seq<char>,
    base: Seq<char>,
    state: DailyState,
    event: DailyEventView,
)
    requires
        daily_step(url, key, base, state, event).1 is Fetch,
    ensures
        state == DailyState::Counting,
        event matches DailyEventView::Counted(count) && count <= 1,
{
}

/// Rows are handed out to be stored only for a fetched body, an answer is
/// read from the rate store only for loaded rows, and a request is done
/// exactly when it has been answered or has failed.
pub proof fn lemma_actions_in_turn(
    url: Seq<char>,
    key: Seq<char>,
    base: Seq<char>,
    state: DailyState,
    event: DailyEventView,
)
    ensures
        ({
            let (next, action) = daily_step(url, key, base, state, event);
            &&& action is StoreAndReply ==> state == DailyState::Fetching && event is Fetched
            &&& action is Reply ==> state == DailyState::Loading && event is Loaded
            &&& next == DailyState::Done <==> action is Reply || action is StoreAndReply
                || action is Fail
        }),
{
}

} // verus!
