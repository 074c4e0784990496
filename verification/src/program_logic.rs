//! The steps of the calibration pipeline: one reading, one batch, and what
//! is published for it.
use crate::aggregation::{after_samples, produced};
use crate::data_types::{Beacon, BeaconDiff, BeaconList};
use crate::diff_map::BeaconDiffMap;
use crate::publication::{
    emitted_all, message_text, CalibrationEvent, CalibrationEventView, PublicationGate,
};
use crate::smoothing::{
    lemma_smoothed_between, next_diff, signed_diff, smoothed_rssi, update_fits,
};
use vstd::math::abs;
use vstd::prelude::*;

verus! {

/// Running average after one more reading, in 64 bits.
fn smoothed_rssi_wide(rssi: i32, count: i32, sample: i32) -> (smoothed: i64)
    requires
        0 <= count < i32::MAX,
    ensures
        smoothed == smoothed_rssi(rssi as int, count as int, sample as int),
{
    assert(-0x4000_0000_0000_0000 <= rssi * count <= 0x4000_0000_0000_0000) by (nonlinear_arith)
        requires
            -0x8000_0000 <= rssi <= 0x7fff_ffff,
            0 <= count <= 0x7fff_ffff,
    ;
    let rssi_product: i64 = (rssi as i64) * (count as i64);
    let new_count: i64 = count as i64 + 1;
    (rssi_product + sample as i64) / new_count
}

/// Absolute value of a 64-bit number that is not the least one.
fn magnitude(x: i64) -> (m: i64)
    requires
        x > i64::MIN,
    ensures
        m == abs(x as int),
{
    if x < 0 {
        -x
    } else {
        x
    }
}

/// Signed distance between the previous average and the reading, in 64 bits.
fn signed_diff_wide(rssi: i32, smoothed: i64, sample: i32) -> (diff: i64)
    requires
        i64::MIN < smoothed,
    ensures
        diff == signed_diff(rssi as int, smoothed as int, sample as int),
{
    let distance: i64 = magnitude(rssi as i64 - sample as i64);
    if magnitude(smoothed) < magnitude(sample as i64) {
        distance
    } else {
        -distance
    }
}

/// Whether `beacon_data` can be folded into `old_diff`.
pub fn update_is_representable(beacon_data: &Beacon, old_diff: &Option<BeaconDiff>) -> (fits: bool)
    ensures
        fits == update_fits(old_diff.deep_view(), beacon_data@),
{
    match old_diff {
        Some(s) => {
            if s.count < 0 || s.count == i32::MAX {
                return false;
            }
            let avg_rssi: i64 = smoothed_rssi_wide(s.rssi, s.count, beacon_data.rssi);
            proof {
                lemma_smoothed_between(s.rssi as int, s.count as int, beacon_data.rssi as int);
            }
            let diff: i64 = signed_diff_wide(s.rssi, avg_rssi, beacon_data.rssi);
            i32::MIN as i64 <= diff && diff <= i32::MAX as i64
        },
        None => true,
    }
}

/// Creates the aggregate that follows `old_diff` once `beacon_data` has been
/// seen.
pub fn get_new_beacon_diff(beacon_data: &Beacon, old_diff: Option<BeaconDiff>) -> (new_diff:
    BeaconDiff)
    requires
        update_fits(old_diff.deep_view(), beacon_data@),
    ensures
        new_diff@ == next_diff(old_diff.deep_view(), beacon_data@),
{
    match old_diff {
        Some(s) => {
            let avg_rssi: i64 = smoothed_rssi_wide(s.rssi, s.count, beacon_data.rssi);
            let diff: i64 = signed_diff_wide(s.rssi, avg_rssi, beacon_data.rssi);
            BeaconDiff {
                mac_address: beacon_data.mac_address.clone(),
                rssi: avg_rssi as i32,
                count: s.count + 1,
                diff: diff as i32,
            }
        },
        None => BeaconDiff {
            mac_address: beacon_data.mac_address.clone(),
            rssi: beacon_data.rssi,
            count: 1,
            diff: 0,
        },
    }
}

/// Folds every reading of `beacon_list` into `map`, in order, and returns the
/// aggregates that resulted.  A reading whose aggregate would not fit its
/// 32-bit fields is passed over: it changes nothing and yields nothing.
pub fn get_beacon_diff(map: &mut BeaconDiffMap, beacon_list: &BeaconList) -> (new_beacon_diff: Vec<
    BeaconDiff,
>)
    requires
        old(map).wf(),
    ensures
        final(map).wf(),
        final(map)@ == after_samples(
            old(map)@,
            beacon_list@.device_identifier,
            beacon_list@.beacons,
        ),
        new_beacon_diff.deep_view() == produced(
            old(map)@,
            beacon_list@.device_identifier,
            beacon_list@.beacons,
        ),
{
    let ghost device = beacon_list@.device_identifier;
    let ghost samples = beacon_list@.beacons;
    let mut new_beacon_diff: Vec<BeaconDiff> = Vec::new();
    let mut i: usize = 0;
    while i < beacon_list.beacons.len()
        invariant
            i <= beacon_list.beacons.len(),
            device == beacon_list@.device_identifier,
            samples == beacon_list@.beacons,
            map.wf(),
            map@ == after_samples(old(map)@, device, samples.take(i as int)),
            new_beacon_diff.deep_view() == produced(old(map)@, device, samples.take(i as int)),
        decreases beacon_list.beacons.len() - i,
    {
        let ghost earlier = new_beacon_diff.deep_view();
        let beacon = &beacon_list.beacons[i];
        match map.apply_update(&beacon_list.device_identifier, beacon) {
            Some(new_diff) => {
                new_beacon_diff.push(new_diff);
                assert(new_beacon_diff.deep_view() =~= earlier.push(new_diff@));
            },
            None => {},
        }
        proof {
            assert(samples.take(i + 1).drop_last() =~= samples.take(i as int));
            assert(samples.take(i + 1).last() == beacon@);
        }
        i += 1;
    }
    proof {
        assert(samples.take(i as int) =~= samples);
    }
    new_beacon_diff
}

/// The texts of `events`, one for each, in order.
pub open spec fn message_texts(events: Seq<CalibrationEventView>) -> Seq<Seq<char>> {
    events.map_values(|event: CalibrationEventView| message_text(event))
}

/// The texts to publish for `beacon_diff_list`: one for each aggregate whose
/// count has reached the threshold of `gate`, in order.
pub fn calibration_messages(beacon_diff_list: &Vec<BeaconDiff>, gate: &PublicationGate) -> (messages:
    Vec<String>)
    ensures
        messages.deep_view() == message_texts(
            emitted_all(gate.threshold as int, beacon_diff_list.deep_view()),
        ),
{
    let events = gate.consider_all(beacon_diff_list);
    let mut messages: Vec<String> = Vec::new();
    let mut i: usize = 0;
    while i < events.len()
        invariant
            i <= events.len(),
            messages.len() == i,
            forall|j: int| 0 <= j < i ==> (#[trigger] messages[j])@ == message_text(events[j]@),
        decreases events.len() - i,
    {
        messages.push(events[i].message());
        i += 1;
    }
    assert(messages.deep_view() =~= message_texts(events.deep_view()));
    messages
}

/// Handles one inbound batch: folds its readings into `map` and returns the
/// calibration events of the aggregates that resulted, in order.
pub fn handle_batch(map: &mut BeaconDiffMap, gate: &PublicationGate, batch: &BeaconList) -> (events:
    Vec<CalibrationEvent>)
    requires
        old(map).wf(),
    ensures
        final(map).wf(),
        final(map)@ == after_samples(old(map)@, batch@.device_identifier, batch@.beacons),
        events.deep_view() == emitted_all(
            gate.threshold as int,
            produced(old(map)@, batch@.device_identifier, batch@.beacons),
        ),
{
    let new_beacon_diff = get_beacon_diff(map, batch);
    gate.consider_all(&new_beacon_diff)
}

/// Whether every byte of `payload` is an ASCII character.  Only such
/// payloads are decoded.
pub fn payload_is_text(payload: &[u8]) -> (is_text: bool)
    ensures
        is_text <==> forall|i: int| 0 <= i < payload@.len() ==> payload@[i] < 128,
{
    let mut i: usize = 0;
    while i < payload.len()
        invariant
            i <= payload.len(),
            forall|j: int| 0 <= j < i ==> payload@[j] < 128,
        decreases payload.len() - i,
    {
        if payload[i] >= 128 {
            return false;
        }
        i += 1;
    }
    true
}

} // verus!
