//! The keyed table of aggregates.
use crate::aggregation::{accepted, after_sample, key_of, lookup, well_counted};
use crate::data_types::{Beacon, BeaconDiff, BeaconDiffView, BeaconKey};
use crate::program_logic::{get_new_beacon_diff, update_is_representable};
use crate::smoothing::{next_diff, update_fits};
use vstd::hash_map::StringHashMap;
use vstd::prelude::*;

verus! {

/// What one hash table of aggregates must satisfy: each entry is filed under
/// its own beacon and counts at least one reading.
spec fn table_ok(table: Map<Seq<char>, BeaconDiff>) -> bool {
    forall|mac: Seq<char>| #[trigger]
        table.contains_key(mac) ==> table[mac].mac_address@ == mac && table[mac].count >= 1
}

/// The entry filed under `mac` in one hash table, as a mathematical value.
spec fn entry_of(table: Map<Seq<char>, BeaconDiff>, mac: Seq<char>) -> Option<BeaconDiffView> {
    if table.contains_key(mac) {
        Some(table[mac]@)
    } else {
        None
    }
}

/// Folds `beacon` into the entry of its address in one hash table.
fn update_table(table: &mut StringHashMap<BeaconDiff>, beacon: &Beacon) -> (updated: Option<
    BeaconDiff,
>)
    requires
        table_ok(old(table)@),
    ensures
        table_ok(final(table)@),
        updated is Some <==> update_fits(entry_of(old(table)@, beacon.mac_address@), beacon@),
        updated matches Some(d) ==> {
            &&& d@ == next_diff(entry_of(old(table)@, beacon.mac_address@), beacon@)
            &&& final(table)@ == old(table)@.insert(beacon.mac_address@, d)
        },
        updated is None ==> final(table)@ == old(table)@,
{
    let previous: Option<BeaconDiff> = match table.get(beacon.mac_address.as_str()) {
        Some(stored) => Some(stored.clone()),
        None => None,
    };
    if update_is_representable(beacon, &previous) {
        let next = get_new_beacon_diff(beacon, previous);
        table.insert(beacon.mac_address.clone(), next.clone());
        Some(next)
    } else {
        None
    }
}

/// One aggregate per bucket.
///
/// Readings without a device identifier share one hash table; each named
/// device has a hash table of its own, found through `devices`.
pub struct BeaconDiffMap {
    unnamed: StringHashMap<BeaconDiff>,
    devices: StringHashMap<usize>,
    tables: Vec<StringHashMap<BeaconDiff>>,
}

impl BeaconDiffMap {
    /// The table is consistent.  This holds of every table that `new` made
    /// and that only the functions of this crate have changed.
    pub closed spec fn wf(&self) -> bool {
        &&& table_ok(self.unnamed@)
        &&& forall|i: int| 0 <= i < self.tables.len() ==> table_ok(#[trigger] self.tables[i]@)
        &&& forall|d: Seq<char>| #[trigger]
            self.devices@.contains_key(d) ==> self.devices@[d] < self.tables.len()
        &&& forall|d1: Seq<char>, d2: Seq<char>|
            #![trigger self.devices@[d1], self.devices@[d2]]
            self.devices@.contains_key(d1) && self.devices@.contains_key(d2) && self.devices@[d1]
                == self.devices@[d2] ==> d1 == d2
    }

    /// The hash table that holds the buckets of `device_identifier`.
    spec fn table_of(&self, device_identifier: Option<Seq<char>>) -> Map<Seq<char>, BeaconDiff> {
        match device_identifier {
            None => self.unnamed@,
            Some(d) => if self.devices@.contains_key(d) {
                self.tables[self.devices@[d] as int]@
            } else {
                Map::empty()
            },
        }
    }

    /// What a consistent table holds is well counted.
    pub proof fn lemma_well_counted(&self)
        requires
            self.wf(),
        ensures
            well_counted(self@),
    {
    }

    /// An empty table.
    pub fn new() -> (m: Self)
        ensures
            m.wf(),
            m@ == Map::<BeaconKey, BeaconDiffView>::empty(),
    {
        let m = BeaconDiffMap {
            unnamed: StringHashMap::new(),
            devices: StringHashMap::new(),
            tables: Vec::new(),
        };
        assert(m@ =~= Map::<BeaconKey, BeaconDiffView>::empty());
        m
    }

    /// Folds one reading into the aggregate of its bucket, stores the result
    /// and returns it.  Where the result would not fit its 32-bit fields the
    /// table is left as it was and nothing is returned.
    pub fn apply_update(&mut self, device_identifier: &Option<String>, beacon: &Beacon) -> (updated:
        Option<BeaconDiff>)
        requires
            old(self).wf(),
        ensures
            final(self).wf(),
            final(self)@ == after_sample(old(self)@, device_identifier.deep_view(), beacon@),
            updated.deep_view() == accepted(
                lookup(old(self)@, key_of(device_identifier.deep_view(), beacon@)),
                beacon@,
            ),
    {
        let updated = match device_identifier {
            None => update_table(&mut self.unnamed, beacon),
            Some(device) => {
                let known: Option<usize> = match self.devices.get(device.as_str()) {
                    Some(slot) => Some(*slot),
                    None => None,
                };
                let slot: usize = match known {
                    Some(slot) => slot,
                    None => {
                        let slot: usize = self.tables.len();
                        self.tables.push(StringHashMap::new());
                        self.devices.insert(device.clone(), slot);
                        slot
                    },
                };
                update_table(&mut self.tables[slot], beacon)
            },
        };
        proof {
            assert(final(self)@ =~= after_sample(old(self)@, device_identifier.deep_view(), beacon@));
        }
        updated
    }

    /// The aggregate stored for a bucket, if any reading of it was folded in.
    pub fn peek(&self, device_identifier: &Option<String>, mac_address: &str) -> (found: Option<
        BeaconDiff,
    >)
        requires
            self.wf(),
        ensures
            found.deep_view() == lookup(
                self@,
                BeaconKey {
                    device_identifier: device_identifier.deep_view(),
                    mac_address: mac_address@,
                },
            ),
    {
        let stored: Option<&BeaconDiff> = match device_identifier {
            None => self.unnamed.get(mac_address),
            Some(device) => match self.devices.get(device.as_str()) {
                Some(slot) => self.tables[*slot].get(mac_address),
                None => None,
            },
        };
        match stored {
            Some(d) => Some(d.clone()),
            None => None,
        }
    }
}

impl View for BeaconDiffMap {
    type V = Map<BeaconKey, BeaconDiffView>;

    closed spec fn view(&self) -> Map<BeaconKey, BeaconDiffView> {
        Map::new(
            |key: BeaconKey| self.table_of(key.device_identifier).contains_key(key.mac_address),
            |key: BeaconKey| self.table_of(key.device_identifier)[key.mac_address]@,
        )
    }
}

} // verus!
