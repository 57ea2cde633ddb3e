//! The log of a game: what was done, in order, between the moment the game
//! started and the moment it ended.

use crate::card::Card;
use vstd::prelude::*;

verus! {

/// Index of a row of the table.
pub type RowIndex = usize;

/// A reading of the wall clock: whole seconds since the start of 1970 (UTC)
/// and the nanoseconds into that second.
#[derive(Clone, Copy, Debug, PartialEq, Eq, Structural)]
pub struct Timestamp {
    pub secs: i64,
    pub nanos: u32,
}

impl Timestamp {
    /// `self` is the same moment as `other` or an earlier one.
    pub open spec fn not_after(self, other: Timestamp) -> bool {
        self.secs < other.secs || (self.secs == other.secs && self.nanos <= other.nanos)
    }
}

/// `chrono::Local::now`, read as seconds (`DateTime::timestamp`) and
/// nanoseconds (`DateTime::timestamp_subsec_nanos`). Nothing is claimed of
/// the reading: the clock is the machine's, and it can be set back. The
/// call fails only where that clock shows a time before 1970.
#[verifier::external_body]
fn now() -> (reading: Timestamp) {
    let moment = chrono::Local::now();
    Timestamp { secs: moment.timestamp(), nanos: moment.timestamp_subsec_nanos() }
}

/// What happened on a turn.
#[derive(Clone, Copy, Debug, PartialEq, Eq)]
pub enum Event {
    /// One card was dealt onto each row; the cards are in row order.
    Deal([Card; 4]),
    /// The top card of a row went to the discard pile.
    Eliminate(RowIndex),
    /// The top card of the first row moved onto the second row.
    Place(RowIndex, RowIndex),
}

/// The event of dealing `a`, `b`, `c` and `d` onto rows 0 to 3.
pub open spec fn deal_of(a: Card, b: Card, c: Card, d: Card) -> Event {
    Event::Deal([a, b, c, d])
}

/// An event was offered to a history that has ended.
#[derive(Clone, Copy, Debug, PartialEq, Eq)]
pub struct HistoryEndedError;

/// What a history holds.
pub ghost struct HistoryView {
    pub start: Option<Timestamp>,
    pub end: Option<Timestamp>,
    pub events: Seq<Event>,
}

impl HistoryView {
    /// A history that starts at `start` and holds nothing yet.
    pub open spec fn starting_at(start: Timestamp) -> HistoryView {
        HistoryView { start: Some(start), end: None, events: Seq::empty() }
    }

    /// The history still takes events: it has not ended.
    pub open spec fn live(self) -> bool {
        self.end is None
    }

    /// The history with one more event at its end.
    pub open spec fn with(self, event: Event) -> HistoryView {
        HistoryView { events: self.events.push(event), ..self }
    }

    /// The history, ended at `end`.
    pub open spec fn ended_at(self, end: Timestamp) -> HistoryView {
        HistoryView { end: Some(end), ..self }
    }

    /// Where both dates are set, the start is not after the end.
    pub open spec fn chronological(self) -> bool {
        self.start matches Some(start) ==> (self.end matches Some(end) ==> start.not_after(end))
    }
}

/// An ended history takes no more events, whenever it ended.
pub proof fn lemma_ended_history_is_closed(history: HistoryView, end: Timestamp)
    ensures
        !history.ended_at(end).live(),
{
}

/// A history that ends no earlier than it started has its dates in order.
pub proof fn lemma_dates_in_order(history: HistoryView, end: Timestamp)
    requires
        history.start matches Some(start) ==> start.not_after(end),
    ensures
        history.ended_at(end).chronological(),
{
}

/// Append-only log of events with the dates of its start and end.
#[derive(Clone, Debug)]
pub struct History {
    start_date: Option<Timestamp>,
    end_date: Option<Timestamp>,
    events: Vec<Event>,
}

impl View for History {
    type V = HistoryView;

    closed spec fn view(&self) -> HistoryView {
        HistoryView { start: self.start_date, end: self.end_date, events: self.events@ }
    }
}

impl History {
    /// A live, empty history that starts now.
    pub fn new() -> (history: History)
        ensures
            history@.start is Some,
            history@ == HistoryView::starting_at(history@.start.unwrap()),
    {
        History::starting_at(now())
    }

    /// A live, empty history that starts at `start`.
    pub fn starting_at(start: Timestamp) -> (history: History)
        ensures
            history@ == HistoryView::starting_at(start),
    {
        History { start_date: Some(start), end_date: None, events: Vec::new() }
    }

    /// A history with the given dates and events, as it was kept elsewhere.
    pub fn from_parts(
        start_date: Option<Timestamp>,
        end_date: Option<Timestamp>,
        events: Vec<Event>,
    ) -> (history: History)
        ensures
            history@ == (HistoryView { start: start_date, end: end_date, events: events@ }),
    {
        History { start_date, end_date, events }
    }

    /// Appends an event, unless the history has ended.
    pub fn push(&mut self, event: Event) -> (r: Result<(), HistoryEndedError>)
        ensures
            old(self)@.live() ==> r is Ok && final(self)@ == old(self)@.with(event),
            !old(self)@.live() ==> r is Err && final(self)@ == old(self)@,
    {
        if self.end_date.is_none() {
            self.events.push(event);
            Ok(())
        } else {
            Err(HistoryEndedError)
        }
    }

    /// Ends the history now.
    pub fn end(self) -> (history: History)
        ensures
            history@.end is Some,
            history@ == self@.ended_at(history@.end.unwrap()),
            !history@.live(),
    {
        self.ending_at(now())
    }

    /// Ends the history at `end`.
    pub fn ending_at(self, end: Timestamp) -> (history: History)
        ensures
            history@ == self@.ended_at(end),
            !history@.live(),
            (self@.start matches Some(start) ==> start.not_after(end)) ==> history@.chronological(),
    {
        let mut history = self;
        history.end_date = Some(end);
        history
    }

    /// The event pushed last, if any.
    pub fn last(&self) -> (event: Option<&Event>)
        ensures
            self@.events.len() == 0 ==> event is None,
            self@.events.len() > 0 ==> event == Some(&self@.events.last()),
    {
        let n = self.events.len();
        if n == 0 {
            None
        } else {
            Some(&self.events[n - 1])
        }
    }

    /// When the history started.
    pub fn start_date(&self) -> (date: Option<Timestamp>)
        ensures
            date == self@.start,
    {
        self.start_date
    }

    /// When the history ended, if it has.
    pub fn end_date(&self) -> (date: Option<Timestamp>)
        ensures
            date == self@.end,
    {
        self.end_date
    }

    /// The events, oldest first.
    pub fn events(&self) -> (events: &Vec<Event>)
        ensures
            events@ == self@.events,
    {
        &self.events
    }
}

} // verus!
