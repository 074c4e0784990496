//! The table of aggregates as a mathematical map from buckets to
//! aggregates: what readings do to it, and what always holds of it.
use crate::data_types::{BeaconDiffView, BeaconKey, BeaconView};
use crate::smoothing::{lemma_smoothed_between, next_diff, representable, update_fits};
use vstd::prelude::*;

verus! {

/// The aggregate stored under `key`, if there is one.
pub open spec fn lookup(m: Map<BeaconKey, BeaconDiffView>, key: BeaconKey) -> Option<
    BeaconDiffView,
> {
    if m.contains_key(key) {
        Some(m[key])
    } else {
        None
    }
}

/// The bucket that a reading of `sample` reported by `device_identifier`
/// belongs to.
pub open spec fn key_of(device_identifier: Option<Seq<char>>, sample: BeaconView) -> BeaconKey {
    BeaconKey { device_identifier, mac_address: sample.mac_address }
}

/// The table after one reading: the bucket of the reading holds the
/// aggregate that follows, unless that aggregate does not fit, in which case
/// nothing changes.
pub open spec fn after_sample(
    m: Map<BeaconKey, BeaconDiffView>,
    device_identifier: Option<Seq<char>>,
    sample: BeaconView,
) -> Map<BeaconKey, BeaconDiffView> {
    let key = key_of(device_identifier, sample);
    if update_fits(lookup(m, key), sample) {
        m.insert(key, next_diff(lookup(m, key), sample))
    } else {
        m
    }
}

/// What a reading of `sample` yields for a bucket that holds `previous`: the
/// aggregate that follows, or nothing where that aggregate does not fit.
pub open spec fn accepted(previous: Option<BeaconDiffView>, sample: BeaconView) -> Option<
    BeaconDiffView,
> {
    if update_fits(previous, sample) {
        Some(next_diff(previous, sample))
    } else {
        None
    }
}

/// The table after the readings of one batch, folded in one after the other.
pub open spec fn after_samples(
    m: Map<BeaconKey, BeaconDiffView>,
    device_identifier: Option<Seq<char>>,
    samples: Seq<BeaconView>,
) -> Map<BeaconKey, BeaconDiffView>
    decreases samples.len(),
{
    if samples.len() == 0 {
        m
    } else {
        after_sample(
            after_samples(m, device_identifier, samples.drop_last()),
            device_identifier,
            samples.last(),
        )
    }
}

/// The aggregates that the readings of one batch yield, in the order of the
/// readings; a reading whose aggregate does not fit yields none.
pub open spec fn produced(
    m: Map<BeaconKey, BeaconDiffView>,
    device_identifier: Option<Seq<char>>,
    samples: Seq<BeaconView>,
) -> Seq<BeaconDiffView>
    decreases samples.len(),
{
    if samples.len() == 0 {
        Seq::empty()
    } else {
        let before = after_samples(m, device_identifier, samples.drop_last());
        let earlier = produced(m, device_identifier, samples.drop_last());
        match accepted(lookup(before, key_of(device_identifier, samples.last())), samples.last()) {
            Some(next) => earlier.push(next),
            None => earlier,
        }
    }
}

/// Every stored aggregate carries the beacon of its bucket, counts at least
/// one reading and fits its 32-bit fields.
pub open spec fn well_counted(m: Map<BeaconKey, BeaconDiffView>) -> bool {
    forall|key: BeaconKey| #[trigger]
        m.contains_key(key) ==> {
            &&& m[key].mac_address == key.mac_address
            &&& m[key].count >= 1
            &&& representable(m[key])
        }
}

/// Number of readings that the bucket `key` has counted; zero where the
/// bucket does not exist.
pub open spec fn count_of(m: Map<BeaconKey, BeaconDiffView>, key: BeaconKey) -> int {
    match lookup(m, key) {
        Some(d) => d.count,
        None => 0,
    }
}

/// What is found in a bucket changes only when a reading of that bucket is
/// folded in: a reading of another bucket leaves it as it was.
pub proof fn lemma_other_buckets_unchanged(
    m: Map<BeaconKey, BeaconDiffView>,
    device_identifier: Option<Seq<char>>,
    sample: BeaconView,
    key: BeaconKey,
)
    requires
        key != key_of(device_identifier, sample),
    ensures
        lookup(after_sample(m, device_identifier, sample), key) == lookup(m, key),
{
}

/// Once a reading has been folded in, its bucket holds the aggregate that
/// the reading yielded.
pub proof fn lemma_update_is_stored(
    m: Map<BeaconKey, BeaconDiffView>,
    device_identifier: Option<Seq<char>>,
    sample: BeaconView,
)
    requires
        accepted(lookup(m, key_of(device_identifier, sample)), sample) is Some,
    ensures
        lookup(after_sample(m, device_identifier, sample), key_of(device_identifier, sample))
            == accepted(lookup(m, key_of(device_identifier, sample)), sample),
{
}

/// The first reading of a bucket becomes its aggregate as it is: the average
/// is the reading, the count is one and the distance is zero.
pub proof fn lemma_first_sample(
    m: Map<BeaconKey, BeaconDiffView>,
    device_identifier: Option<Seq<char>>,
    sample: BeaconView,
)
    requires
        i32::MIN <= sample.rssi <= i32::MAX,
        !m.contains_key(key_of(device_identifier, sample)),
    ensures
        lookup(after_sample(m, device_identifier, sample), key_of(device_identifier, sample))
            == Some(
            BeaconDiffView {
                mac_address: sample.mac_address,
                rssi: sample.rssi,
                count: 1,
                diff: 0,
            },
        ),
{
}

/// Folding readings in keeps a well-counted table well counted.
pub proof fn lemma_after_samples_well_counted(
    m: Map<BeaconKey, BeaconDiffView>,
    device_identifier: Option<Seq<char>>,
    samples: Seq<BeaconView>,
)
    requires
        well_counted(m),
    ensures
        well_counted(after_samples(m, device_identifier, samples)),
    decreases samples.len(),
{
    if samples.len() > 0 {
        lemma_after_samples_well_counted(m, device_identifier, samples.drop_last());
    }
}

/// The count of a bucket never goes down, whatever readings are folded in.
pub proof fn lemma_count_never_decreases(
    m: Map<BeaconKey, BeaconDiffView>,
    device_identifier: Option<Seq<char>>,
    samples: Seq<BeaconView>,
    key: BeaconKey,
)
    ensures
        count_of(m, key) <= count_of(after_samples(m, device_identifier, samples), key),
    decreases samples.len(),
{
    if samples.len() > 0 {
        lemma_count_never_decreases(m, device_identifier, samples.drop_last(), key);
    }
}

/// After readings of one beacon by one device, the bucket counts one more
/// reading for each aggregate that the readings yielded.
pub proof fn lemma_count_after_samples(
    m: Map<BeaconKey, BeaconDiffView>,
    device_identifier: Option<Seq<char>>,
    mac_address: Seq<char>,
    samples: Seq<BeaconView>,
)
    requires
        forall|i: int| 0 <= i < samples.len() ==> (#[trigger] samples[i]).mac_address == mac_address,
    ensures
        count_of(
            after_samples(m, device_identifier, samples),
            BeaconKey { device_identifier, mac_address },
        ) == count_of(m, BeaconKey { device_identifier, mac_address }) + produced(
            m,
            device_identifier,
            samples,
        ).len(),
    decreases samples.len(),
{
    if samples.len() > 0 {
        lemma_count_after_samples(m, device_identifier, mac_address, samples.drop_last());
        assert(key_of(device_identifier, samples.last()) == BeaconKey {
            device_identifier,
            mac_address,
        });
    }
}

/// N readings of a beacon that was never seen, none of them passed over,
/// leave a count of N.
pub proof fn lemma_count_is_number_of_samples(
    m: Map<BeaconKey, BeaconDiffView>,
    device_identifier: Option<Seq<char>>,
    mac_address: Seq<char>,
    samples: Seq<BeaconView>,
)
    requires
        forall|i: int| 0 <= i < samples.len() ==> (#[trigger] samples[i]).mac_address == mac_address,
        !m.contains_key(BeaconKey { device_identifier, mac_address }),
        produced(m, device_identifier, samples).len() == samples.len(),
    ensures
        count_of(
            after_samples(m, device_identifier, samples),
            BeaconKey { device_identifier, mac_address },
        ) == samples.len(),
{
    lemma_count_after_samples(m, device_identifier, mac_address, samples);
}

/// Readings of a beacon that was never seen, all within a span that fits 32
/// bits, are all counted, and the average stays within the span.
pub proof fn lemma_samples_within_span(
    m: Map<BeaconKey, BeaconDiffView>,
    device_identifier: Option<Seq<char>>,
    mac_address: Seq<char>,
    samples: Seq<BeaconView>,
    lo: int,
    hi: int,
)
    requires
        i32::MIN <= lo <= hi <= i32::MAX,
        hi - lo <= i32::MAX,
        samples.len() <= i32::MAX,
        !m.contains_key(BeaconKey { device_identifier, mac_address }),
        forall|i: int|
            0 <= i < samples.len() ==> {
                &&& (#[trigger] samples[i]).mac_address == mac_address
                &&& lo <= samples[i].rssi <= hi
            },
    ensures
        produced(m, device_identifier, samples).len() == samples.len(),
        count_of(
            after_samples(m, device_identifier, samples),
            BeaconKey { device_identifier, mac_address },
        ) == samples.len(),
        samples.len() > 0 ==> lo <= after_samples(m, device_identifier, samples)[BeaconKey {
            device_identifier,
            mac_address,
        }].rssi <= hi,
    decreases samples.len(),
{
    if samples.len() > 0 {
        let key = BeaconKey { device_identifier, mac_address };
        let earlier = samples.drop_last();
        lemma_samples_within_span(m, device_identifier, mac_address, earlier, lo, hi);
        assert(key_of(device_identifier, samples.last()) == key);
        if let Some(p) = lookup(after_samples(m, device_identifier, earlier), key) {
            lemma_smoothed_between(p.rssi, p.count, samples.last().rssi);
        }
    }
}

/// No update is lost, in whichever order the readings of a beacon that was
/// never seen are folded in: as long as none of them is passed over, the
/// count is their number.
pub proof fn lemma_no_update_is_lost(
    m: Map<BeaconKey, BeaconDiffView>,
    device_identifier: Option<Seq<char>>,
    mac_address: Seq<char>,
    samples: Seq<BeaconView>,
    reordered: Seq<BeaconView>,
)
    requires
        forall|i: int| 0 <= i < samples.len() ==> (#[trigger] samples[i]).mac_address == mac_address,
        !m.contains_key(BeaconKey { device_identifier, mac_address }),
        reordered.to_multiset() == samples.to_multiset(),
        produced(m, device_identifier, reordered).len() == reordered.len(),
    ensures
        count_of(
            after_samples(m, device_identifier, reordered),
            BeaconKey { device_identifier, mac_address },
        ) == samples.len(),
{
    samples.to_multiset_ensures();
    reordered.to_multiset_ensures();
    assert forall|i: int| 0 <= i < reordered.len() implies (#[trigger] reordered[i]).mac_address
        == mac_address by {
        assert(reordered.contains(reordered[i]));
        assert(reordered.to_multiset().count(reordered[i]) > 0);
        assert(samples.to_multiset().count(reordered[i]) > 0);
        assert(samples.contains(reordered[i]));
    }
    lemma_count_is_number_of_samples(m, device_identifier, mac_address, reordered);
}

} // verus!
