//! The running-average model: what one more reading does to an aggregate.
use crate::data_types::{BeaconDiffView, BeaconView};
use vstd::math::{abs, max, min};
use vstd::prelude::*;

verus! {

/// Quotient of `a` by a positive `b`, rounded toward zero.
pub open spec fn truncated_quotient(a: int, b: int) -> int {
    if a >= 0 {
        a / b
    } else {
        -((-a) / b)
    }
}

/// Average of `count` readings that averaged `rssi`, and one more reading
/// `sample`, rounded toward zero.
pub open spec fn smoothed_rssi(rssi: int, count: int, sample: int) -> int {
    truncated_quotient(rssi * count + sample, count + 1)
}

/// Distance between the previous average `rssi` and the reading `sample`,
/// positive when the new average `smoothed` is closer to zero than the
/// reading is, negative otherwise.
pub open spec fn signed_diff(rssi: int, smoothed: int, sample: int) -> int {
    if abs(smoothed) < abs(sample) {
        abs(rssi - sample) as int
    } else {
        -abs(rssi - sample)
    }
}

/// The aggregate that follows `previous` once `sample` has been seen.
pub open spec fn next_diff(previous: Option<BeaconDiffView>, sample: BeaconView) -> BeaconDiffView {
    match previous {
        None => BeaconDiffView {
            mac_address: sample.mac_address,
            rssi: sample.rssi,
            count: 1,
            diff: 0,
        },
        Some(p) => {
            let smoothed = smoothed_rssi(p.rssi, p.count, sample.rssi);
            BeaconDiffView {
                mac_address: sample.mac_address,
                rssi: smoothed,
                count: p.count + 1,
                diff: signed_diff(p.rssi, smoothed, sample.rssi),
            }
        },
    }
}

/// Every number of `d` fits the 32-bit fields of a stored aggregate.
pub open spec fn representable(d: BeaconDiffView) -> bool {
    &&& i32::MIN <= d.rssi <= i32::MAX
    &&& i32::MIN <= d.count <= i32::MAX
    &&& i32::MIN <= d.diff <= i32::MAX
}

/// `sample` can be folded into `previous`: the previous count is not
/// negative and the aggregate that follows fits its 32-bit fields.
pub open spec fn update_fits(previous: Option<BeaconDiffView>, sample: BeaconView) -> bool {
    &&& previous matches Some(p) ==> p.count >= 0
    &&& representable(next_diff(previous, sample))
}

/// A quotient rounded toward zero stays within any bounds that the dividend
/// keeps as multiples of the divisor.
proof fn lemma_truncated_quotient_bounds(a: int, b: int, lo: int, hi: int)
    by (nonlinear_arith)
    requires
        b > 0,
        lo * b <= a <= hi * b,
    ensures
        lo <= truncated_quotient(a, b) <= hi,
{
}

/// The new average lies between the previous average and the reading.
pub proof fn lemma_smoothed_between(rssi: int, count: int, sample: int)
    requires
        count >= 0,
    ensures
        min(rssi, sample) <= smoothed_rssi(rssi, count, sample) <= max(rssi, sample),
{
    let lo = min(rssi, sample);
    let hi = max(rssi, sample);
    assert(lo * (count + 1) <= rssi * count + sample <= hi * (count + 1)) by (nonlinear_arith)
        requires
            count >= 0,
            lo <= rssi <= hi,
            lo <= sample <= hi,
    ;
    lemma_truncated_quotient_bounds(rssi * count + sample, count + 1, lo, hi);
}

/// A reading within 32 bits can be folded into an aggregate within 32 bits
/// whenever one more reading can be counted and the distance between the
/// previous average and the reading fits 32 bits.
pub proof fn lemma_update_fits(previous: Option<BeaconDiffView>, sample: BeaconView)
    requires
        i32::MIN <= sample.rssi <= i32::MAX,
        previous matches Some(p) ==> {
            &&& i32::MIN <= p.rssi <= i32::MAX
            &&& 0 <= p.count < i32::MAX
            &&& abs(p.rssi - sample.rssi) <= i32::MAX
        },
    ensures
        update_fits(previous, sample),
{
    if let Some(p) = previous {
        lemma_smoothed_between(p.rssi, p.count, sample.rssi);
    }
}

} // verus!
