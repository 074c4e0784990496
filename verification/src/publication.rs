//! Between the aggregates and the outbound publisher: which aggregates
//! become calibration events, and how an event is written.
use crate::data_types::{BeaconDiff, BeaconDiffView};
use crate::decimal::{append_decimal, decimal};
use vstd::prelude::*;
use vstd::string::StringExecFns;

verus! {

/// Number of readings from which an aggregate is published when nothing else
/// is configured.
pub const DEFAULT_THRESHOLD: i32 = 5;

/// What is published for one aggregate that rests on enough readings.
#[derive(Debug, PartialEq)]
pub struct CalibrationEvent {
    pub mac_address: String,
    pub rssi: i32,
    pub diff: i32,
}

/// Mathematical value of a [`CalibrationEvent`].
pub struct CalibrationEventView {
    pub mac_address: Seq<char>,
    pub rssi: int,
    pub diff: int,
}

impl View for CalibrationEvent {
    type V = CalibrationEventView;

    open spec fn view(&self) -> CalibrationEventView {
        CalibrationEventView {
            mac_address: self.mac_address@,
            rssi: self.rssi as int,
            diff: self.diff as int,
        }
    }
}

impl DeepView for CalibrationEvent {
    type V = CalibrationEventView;

    open spec fn deep_view(&self) -> CalibrationEventView {
        self@
    }
}

/// The text that is published for `event`.
pub open spec fn message_text(event: CalibrationEventView) -> Seq<char> {
    "{ \"macAddress\": \""@ + event.mac_address + "\", \"rssi\": "@ + decimal(event.rssi)
        + ", \"diff\": "@ + decimal(event.diff) + " }"@
}

impl CalibrationEvent {
    /// Writes the event as the text that is published.  The address is
    /// written as it is, between double quotes.
    pub fn message(&self) -> (text: String)
        ensures
            text@ == message_text(self@),
    {
        let mut text = String::from_str("{ \"macAddress\": \"");
        text.append(self.mac_address.as_str());
        text.append("\", \"rssi\": ");
        append_decimal(&mut text, self.rssi);
        text.append(", \"diff\": ");
        append_decimal(&mut text, self.diff);
        text.append(" }");
        text
    }
}

/// The event that reports `state`.
pub open spec fn event_of(state: BeaconDiffView) -> CalibrationEventView {
    CalibrationEventView { mac_address: state.mac_address, rssi: state.rssi, diff: state.diff }
}

/// What is published for `state`: its event once the count has reached
/// `threshold`, nothing before.
pub open spec fn emitted(threshold: int, state: BeaconDiffView) -> Option<CalibrationEventView> {
    if state.count < threshold {
        None
    } else {
        Some(event_of(state))
    }
}

/// The events of the aggregates among `states` whose count has reached
/// `threshold`, in the order of `states`.
pub open spec fn emitted_all(threshold: int, states: Seq<BeaconDiffView>) -> Seq<
    CalibrationEventView,
> {
    states.filter_map(|state: BeaconDiffView| emitted(threshold, state))
}

/// Holds back aggregates that rest on too few readings.
#[derive(Debug, PartialEq)]
pub struct PublicationGate {
    /// Least count at which an aggregate is published.
    pub threshold: i32,
}

impl PublicationGate {
    /// A gate that publishes from `threshold` readings on.
    pub fn new(threshold: i32) -> (gate: Self)
        ensures
            gate.threshold == threshold,
    {
        PublicationGate { threshold }
    }

    /// Decides on one aggregate.  Every aggregate at or above the threshold
    /// yields an event, each time it is considered.
    pub fn consider(&self, state: &BeaconDiff) -> (event: Option<CalibrationEvent>)
        ensures
            event.deep_view() == emitted(self.threshold as int, state@),
            event is Some <==> state.count >= self.threshold,
    {
        if state.count < self.threshold {
            None
        } else {
            Some(
                CalibrationEvent {
                    mac_address: state.mac_address.clone(),
                    rssi: state.rssi,
                    diff: state.diff,
                },
            )
        }
    }

    /// Decides on each aggregate of `states` in turn and collects the events.
    pub fn consider_all(&self, states: &Vec<BeaconDiff>) -> (events: Vec<CalibrationEvent>)
        ensures
            events.deep_view() == emitted_all(self.threshold as int, states.deep_view()),
    {
        let ghost all = states.deep_view();
        let mut events: Vec<CalibrationEvent> = Vec::new();
        let mut i: usize = 0;
        while i < states.len()
            invariant
                i <= states.len(),
                all == states.deep_view(),
                events.deep_view() == emitted_all(self.threshold as int, all.take(i as int)),
            decreases states.len() - i,
        {
            let ghost earlier = events.deep_view();
            match self.consider(&states[i]) {
                Some(event) => {
                    events.push(event);
                    assert(events.deep_view() =~= earlier + seq![event@]);
                },
                None => {},
            }
            proof {
                all.lemma_filter_map_take_succ(
                    |state: BeaconDiffView| emitted(self.threshold as int, state),
                    i as int,
                );
            }
            i += 1;
        }
        proof {
            assert(all.take(i as int) =~= all);
        }
        events
    }
}

impl Default for PublicationGate {
    fn default() -> (gate: Self)
        ensures
            gate.threshold == DEFAULT_THRESHOLD,
    {
        PublicationGate { threshold: DEFAULT_THRESHOLD }
    }
}

} // verus!
