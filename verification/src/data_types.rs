//! The values that flow through the aggregation engine, and their
//! mathematical views.
use vstd::prelude::*;

verus! {

/// One sighting of a beacon: its hardware address and the signal strength
/// that was measured.
#[derive(Debug, PartialEq)]
pub struct Beacon {
    pub mac_address: String,
    pub rssi: i32,
}

/// The readings carried by one inbound message, in the order they were sent.
#[derive(Debug, PartialEq)]
pub struct BeaconList {
    /// The scanner that reported the readings, when it named itself.
    pub device_identifier: Option<String>,
    pub beacons: Vec<Beacon>,
}

/// The running summary of every reading seen so far for one beacon.
#[derive(Debug, PartialEq)]
pub struct BeaconDiff {
    pub mac_address: String,
    /// Running average of the readings, rounded toward zero at every step.
    pub rssi: i32,
    /// Number of readings that went into `rssi`.
    pub count: i32,
    /// Signed distance between the previous average and the latest reading.
    pub diff: i32,
}

/// Mathematical value of a [`Beacon`].
pub struct BeaconView {
    pub mac_address: Seq<char>,
    pub rssi: int,
}

/// Mathematical value of a [`BeaconList`].
pub struct BeaconListView {
    pub device_identifier: Option<Seq<char>>,
    pub beacons: Seq<BeaconView>,
}

/// Mathematical value of a [`BeaconDiff`].
pub struct BeaconDiffView {
    pub mac_address: Seq<char>,
    pub rssi: int,
    pub count: int,
    pub diff: int,
}

/// Identity of one aggregation bucket: the reporting device, if it named
/// itself, and the beacon it saw.
pub struct BeaconKey {
    pub device_identifier: Option<Seq<char>>,
    pub mac_address: Seq<char>,
}

impl View for Beacon {
    type V = BeaconView;

    open spec fn view(&self) -> BeaconView {
        BeaconView { mac_address: self.mac_address@, rssi: self.rssi as int }
    }
}

impl DeepView for Beacon {
    type V = BeaconView;

    open spec fn deep_view(&self) -> BeaconView {
        self@
    }
}

impl View for BeaconList {
    type V = BeaconListView;

    open spec fn view(&self) -> BeaconListView {
        BeaconListView {
            device_identifier: self.device_identifier.deep_view(),
            beacons: self.beacons.deep_view(),
        }
    }
}

impl DeepView for BeaconList {
    type V = BeaconListView;

    open spec fn deep_view(&self) -> BeaconListView {
        self@
    }
}

impl View for BeaconDiff {
    type V = BeaconDiffView;

    open spec fn view(&self) -> BeaconDiffView {
        BeaconDiffView {
            mac_address: self.mac_address@,
            rssi: self.rssi as int,
            count: self.count as int,
            diff: self.diff as int,
        }
    }
}

impl DeepView for BeaconDiff {
    type V = BeaconDiffView;

    open spec fn deep_view(&self) -> BeaconDiffView {
        self@
    }
}

impl Clone for BeaconDiff {
    fn clone(&self) -> (copy: Self)
        ensures
            copy == *self,
    {
        BeaconDiff {
            mac_address: self.mac_address.clone(),
            rssi: self.rssi,
            count: self.count,
            diff: self.diff,
        }
    }
}

} // verus!
