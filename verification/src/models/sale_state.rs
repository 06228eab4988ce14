//! The lifecycle of a sale: its states, the events that move it, and the
//! transition table.

use vstd::prelude::*;
use vstd::string::*;

verus! {

/// The lifecycle state of a sale.
#[derive(Debug, Clone, Copy, PartialEq, Eq, Structural)]
pub enum SaleState {
    Draft,
    Approved,
    PartiallyPayed,
    Payed,
    Cancelled,
}

/// An event that asks a sale to change state.
#[derive(Debug, Clone, Copy, PartialEq, Eq, Structural)]
pub enum Event {
    Approve,
    Cancel,
    PartiallyPay,
    Pay,
}

/// The rejection of an event that the transition table does not list for the
/// state the sale is in.
#[derive(Debug, Clone, Copy, PartialEq, Eq, Structural)]
pub struct IllegalTransition {
    pub from: SaleState,
    pub event: Event,
}

/// The transition table: the state that `event` leads to from `state`, or
/// `None` where the table has no row for the pair.
pub open spec fn transition(state: SaleState, event: Event) -> Option<SaleState> {
    match (state, event) {
        (SaleState::Draft, Event::Approve) => Some(SaleState::Approved),
        (SaleState::Approved, Event::Pay) => Some(SaleState::Payed),
        (SaleState::Approved, Event::PartiallyPay) => Some(SaleState::PartiallyPayed),
        (SaleState::Approved, Event::Cancel) => Some(SaleState::Cancelled),
        (SaleState::Payed, Event::Cancel) => Some(SaleState::Cancelled),
        (SaleState::PartiallyPayed, Event::Cancel) => Some(SaleState::Cancelled),
        (SaleState::PartiallyPayed, Event::Pay) => Some(SaleState::Payed),
        _ => None,
    }
}

/// The name of a state as it appears in messages.
pub open spec fn state_name(state: SaleState) -> Seq<char> {
    match state {
        SaleState::Draft => "Draft"@,
        SaleState::Approved => "Approved"@,
        SaleState::PartiallyPayed => "PartiallyPayed"@,
        SaleState::Payed => "Payed"@,
        SaleState::Cancelled => "Cancelled"@,
    }
}

/// The name of an event as it appears in messages.
pub open spec fn event_name(event: Event) -> Seq<char> {
    match event {
        Event::Approve => "Approve"@,
        Event::Cancel => "Cancel"@,
        Event::PartiallyPay => "PartiallyPay"@,
        Event::Pay => "Pay"@,
    }
}

/// The text shown to a caller whose event was rejected.
pub open spec fn transition_message(from: SaleState, event: Event) -> Seq<char> {
    "You can't "@ + event_name(event) + " from "@ + state_name(from) + " state"@
}

impl SaleState {
    /// The state's name.
    pub fn name(self) -> (res: &'static str)
        ensures
            res@ == state_name(self),
    {
        match self {
            SaleState::Draft => "Draft",
            SaleState::Approved => "Approved",
            SaleState::PartiallyPayed => "PartiallyPayed",
            SaleState::Payed => "Payed",
            SaleState::Cancelled => "Cancelled",
        }
    }

    /// Applies `event` to the state: the table's target where the pair is
    /// listed, and otherwise an error that names both the state and the event.
    pub fn next(self, event: Event) -> (res: Result<SaleState, IllegalTransition>)
        ensures
            match transition(self, event) {
                Some(target) => res == Ok::<SaleState, IllegalTransition>(target),
                None => res == Err::<SaleState, IllegalTransition>(
                    (IllegalTransition { from: self, event }),
                ),
            },
    {
        match (self, event) {
            (SaleState::Draft, Event::Approve) => Ok(SaleState::Approved),
            (SaleState::Approved, Event::Pay) => Ok(SaleState::Payed),
            (SaleState::Approved, Event::PartiallyPay) => Ok(SaleState::PartiallyPayed),
            (SaleState::Approved, Event::Cancel) => Ok(SaleState::Cancelled),
            (SaleState::Payed, Event::Cancel) => Ok(SaleState::Cancelled),
            (SaleState::PartiallyPayed, Event::Cancel) => Ok(SaleState::Cancelled),
            (SaleState::PartiallyPayed, Event::Pay) => Ok(SaleState::Payed),
            (sale_state, sale_event) => Err(IllegalTransition { from: sale_state, event: sale_event }),
        }
    }
}

impl Event {
    /// The event's name.
    pub fn name(self) -> (res: &'static str)
        ensures
            res@ == event_name(self),
    {
        match self {
            Event::Approve => "Approve",
            Event::Cancel => "Cancel",
            Event::PartiallyPay => "PartiallyPay",
            Event::Pay => "Pay",
        }
    }
}

impl IllegalTransition {
    /// The message for the caller: which event cannot be applied from which
    /// state.
    pub fn message(&self) -> (res: String)
        ensures
            res@ == transition_message(self.from, self.event),
    {
        let mut text = String::from_str("You can't ");
        text.append(self.event.name());
        text.append(" from ");
        text.append(self.from.name());
        text.append(" state");
        text
    }
}

/// Every pair of a state and an event is either one of the seven rows of the
/// table or has no target at all; the table never leads back to `Draft` and
/// never out of `Cancelled`.
pub proof fn transition_table_is_closed(state: SaleState, event: Event)
    ensures
        transition(state, event) is Some <==> (state == SaleState::Draft && event == Event::Approve)
            || (state == SaleState::Approved && event != Event::Approve)
            || (state == SaleState::Payed && event == Event::Cancel)
            || (state == SaleState::PartiallyPayed && (event == Event::Cancel || event
            == Event::Pay)),
        transition(state, event) != Some(SaleState::Draft),
        state == SaleState::Cancelled ==> transition(state, event) is None,
{
}

/// The state a sale reaches from `state` when the events arrive in turn,
/// those that the table rejects leaving it where it is.
pub open spec fn after_events(state: SaleState, events: Seq<Event>) -> SaleState
    decreases events.len(),
{
    if events.len() == 0 {
        state
    } else {
        let before = after_events(state, events.drop_last());
        match transition(before, events.last()) {
            Some(target) => target,
            None => before,
        }
    }
}

/// A sale that has left `Draft` never returns to it, whatever events arrive
/// and in whatever order.
pub proof fn draft_is_never_reentered(state: SaleState, events: Seq<Event>)
    requires
        state != SaleState::Draft,
    ensures
        after_events(state, events) != SaleState::Draft,
    decreases events.len(),
{
    if events.len() > 0 {
        draft_is_never_reentered(state, events.drop_last());
    }
}

} // verus!
