use mystore::models::sale_state::{Event, IllegalTransition, SaleState};

const STATES: [SaleState; 5] = [
    SaleState::Draft,
    SaleState::Approved,
    SaleState::PartiallyPayed,
    SaleState::Payed,
    SaleState::Cancelled,
];

const EVENTS: [Event; 4] = [Event::Approve, Event::Cancel, Event::PartiallyPay, Event::Pay];

fn table(state: SaleState, event: Event) -> Option<SaleState> {
    match (state, event) {
        (SaleState::Draft, Event::Approve) => Some(SaleState::Approved),
        (SaleState::Approved, Event::Pay) => Some(SaleState::Payed),
        (SaleState::Approved, Event::PartiallyPay) => Some(SaleState::PartiallyPayed),
        (SaleState::Approved, Event::Cancel) => Some(SaleState::Cancelled),
        (SaleState::Payed, Event::Cancel) => Some(SaleState::Cancelled),
        (SaleState::PartiallyPayed, Event::Cancel) => Some(SaleState::Cancelled),
        (SaleState::PartiallyPayed, Event::Pay) => Some(SaleState::Payed),
        _ => None,
    }
}

#[test]
fn every_listed_pair_reaches_its_target() {
    assert_eq!(SaleState::Draft.next(Event::Approve), Ok(SaleState::Approved));
    assert_eq!(SaleState::Approved.next(Event::Pay), Ok(SaleState::Payed));
    assert_eq!(SaleState::Approved.next(Event::PartiallyPay), Ok(SaleState::PartiallyPayed));
    assert_eq!(SaleState::Approved.next(Event::Cancel), Ok(SaleState::Cancelled));
    assert_eq!(SaleState::Payed.next(Event::Cancel), Ok(SaleState::Cancelled));
    assert_eq!(SaleState::PartiallyPayed.next(Event::Cancel), Ok(SaleState::Cancelled));
    assert_eq!(SaleState::PartiallyPayed.next(Event::Pay), Ok(SaleState::Payed));
}

#[test]
fn every_pair_follows_the_table() {
    let mut legal = 0;
    for state in STATES {
        for event in EVENTS {
            match table(state, event) {
                Some(target) => {
                    legal += 1;
                    assert_eq!(state.next(event), Ok(target));
                }
                None => {
                    assert_eq!(state.next(event), Err(IllegalTransition { from: state, event }));
                }
            }
        }
    }
    assert_eq!(legal, 7);
}

#[test]
fn cancelled_accepts_nothing() {
    for event in EVENTS {
        assert_eq!(
            SaleState::Cancelled.next(event),
            Err(IllegalTransition { from: SaleState::Cancelled, event })
        );
    }
}

#[test]
fn rejection_names_event_and_state() {
    let rejected = SaleState::Draft.next(Event::Cancel).unwrap_err();
    assert_eq!(rejected.message(), "You can't Cancel from Draft state");
    let rejected = SaleState::Cancelled.next(Event::Pay).unwrap_err();
    assert_eq!(rejected.from, SaleState::Cancelled);
    assert_eq!(rejected.event, Event::Pay);
    assert_eq!(rejected.message(), "You can't Pay from Cancelled state");
    let rejected = SaleState::Payed.next(Event::PartiallyPay).unwrap_err();
    assert_eq!(rejected.message(), "You can't PartiallyPay from Payed state");
}

#[test]
fn names_of_states_and_events() {
    assert_eq!(SaleState::PartiallyPayed.name(), "PartiallyPayed");
    assert_eq!(SaleState::Approved.name(), "Approved");
    assert_eq!(Event::Approve.name(), "Approve");
    assert_eq!(Event::PartiallyPay.name(), "PartiallyPay");
}
