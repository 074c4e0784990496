use beacon_calibrator::data_types::{Beacon, BeaconDiff, BeaconList};
use beacon_calibrator::diff_map::BeaconDiffMap;
use beacon_calibrator::program_logic::get_beacon_diff;
use std::sync::Arc;
use tokio::sync::Mutex;

const MAC: &str = "FF:FF:FF:FF:FF:FF";

fn beacon(mac_address: &str, rssi: i32) -> Beacon {
    Beacon { mac_address: mac_address.into(), rssi }
}

fn diff(mac_address: &str, rssi: i32, count: i32, diff: i32) -> BeaconDiff {
    BeaconDiff { mac_address: mac_address.into(), rssi, count, diff }
}

fn device(name: &str) -> Option<String> {
    Some(name.into())
}

#[test]
fn get_beacon_diff_test() {
    // Setup
    let mut map = BeaconDiffMap::new();
    let seeded = map.apply_update(&None, &beacon(MAC, -40));
    assert_eq!(Some(diff(MAC, -40, 1, 0)), seeded);

    let beacon = Beacon { mac_address: "FF:FF:FF:FF:FF:FF".into(), rssi: -69 };
    let beacon_list = BeaconList { device_identifier: None, beacons: vec![beacon] };

    // Execute
    let result = get_beacon_diff(&mut map, &beacon_list);

    // Verify
    let expected = vec![BeaconDiff { mac_address: "FF:FF:FF:FF:FF:FF".into(), rssi: -54, count: 2, diff: 29 }];
    assert_eq!(expected, result);
}

#[test]
fn get_beacon_diff_test_empty_map() {
    // Setup
    let mut map = BeaconDiffMap::new();
    let beacon = Beacon { mac_address: "FF:FF:FF:FF:FF:FF".into(), rssi: -69 };
    let beacon_list = BeaconList { device_identifier: None, beacons: vec![beacon] };

    // Execute
    let result = get_beacon_diff(&mut map, &beacon_list);

    // Verify
    let expected = vec![BeaconDiff { mac_address: "FF:FF:FF:FF:FF:FF".into(), rssi: -69, count: 1, diff: 0 }];
    assert_eq!(expected, result);
}

#[test]
fn get_beacon_diff_test_empty_list() {
    // Setup
    let mut map = BeaconDiffMap::new();
    let beacon_list = BeaconList { device_identifier: None, beacons: Vec::new() };

    // Execute
    let result = get_beacon_diff(&mut map, &beacon_list);

    // Verify
    let expected: Vec<BeaconDiff> = Vec::new();
    assert_eq!(expected, result);
    assert_eq!(None, map.peek(&None, MAC));
}

#[test]
fn first_reading_is_stored_as_it_is() {
    let mut map = BeaconDiffMap::new();
    assert_eq!(None, map.peek(&None, MAC));
    let updated = map.apply_update(&None, &beacon(MAC, -69));
    assert_eq!(Some(diff(MAC, -69, 1, 0)), updated);
    assert_eq!(Some(diff(MAC, -69, 1, 0)), map.peek(&None, MAC));
}

#[test]
fn count_after_n_readings_is_n() {
    let mut map = BeaconDiffMap::new();
    let readings = [-60, -75, -58, -90, -61, -3, -120];
    for (seen, rssi) in readings.iter().enumerate() {
        let updated = map.apply_update(&device("hall"), &beacon(MAC, *rssi)).unwrap();
        assert_eq!(seen as i32 + 1, updated.count);
        assert_eq!(Some(updated), map.peek(&device("hall"), MAC));
    }
    assert_eq!(7, map.peek(&device("hall"), MAC).unwrap().count);
}

#[test]
fn running_average_follows_every_reading_in_turn() {
    let mut map = BeaconDiffMap::new();
    let list = BeaconList {
        device_identifier: None,
        beacons: vec![beacon("AA", -60), beacon("AA", -75), beacon("AA", -58), beacon("AA", -90)],
    };
    let result = get_beacon_diff(&mut map, &list);
    let expected = vec![
        diff("AA", -60, 1, 0),
        // (-60 - 75) / 2 = -67.5
        diff("AA", -67, 2, 15),
        // (-67 * 2 - 58) / 3 = -64
        diff("AA", -64, 3, -9),
        // (-64 * 3 - 90) / 4 = -70.5
        diff("AA", -70, 4, 26),
    ];
    assert_eq!(expected, result);
    assert_eq!(Some(diff("AA", -70, 4, 26)), map.peek(&None, "AA"));
}

#[test]
fn batch_with_several_beacons_keeps_the_order_of_its_readings() {
    let mut map = BeaconDiffMap::new();
    let list = BeaconList {
        device_identifier: device("hall"),
        beacons: vec![beacon("AA", -60), beacon("BB", -42), beacon("AA", -70), beacon("CC", 0)],
    };
    let result = get_beacon_diff(&mut map, &list);
    let expected = vec![
        diff("AA", -60, 1, 0),
        diff("BB", -42, 1, 0),
        diff("AA", -65, 2, 10),
        diff("CC", 0, 1, 0),
    ];
    assert_eq!(expected, result);
    assert_eq!(Some(diff("BB", -42, 1, 0)), map.peek(&device("hall"), "BB"));
}

#[test]
fn peek_returns_the_same_value_until_the_next_update() {
    let mut map = BeaconDiffMap::new();
    map.apply_update(&device("hall"), &beacon(MAC, -40));
    map.apply_update(&device("hall"), &beacon(MAC, -69));
    let first = map.peek(&device("hall"), MAC);
    let second = map.peek(&device("hall"), MAC);
    let third = map.peek(&device("hall"), MAC);
    assert_eq!(Some(diff(MAC, -54, 2, 29)), first);
    assert_eq!(first, second);
    assert_eq!(second, third);
    assert_eq!(None, map.peek(&device("hall"), "00:00:00:00:00:00"));
    assert_eq!(None, map.peek(&device("hall"), "00:00:00:00:00:00"));
}

#[test]
fn same_beacon_seen_by_different_devices_is_tracked_separately() {
    let mut map = BeaconDiffMap::new();
    map.apply_update(&device("hall"), &beacon(MAC, -40));
    map.apply_update(&device("hall"), &beacon(MAC, -50));
    map.apply_update(&device("kitchen"), &beacon(MAC, -80));
    map.apply_update(&None, &beacon(MAC, -10));
    map.apply_update(&device(""), &beacon(MAC, -20));

    assert_eq!(Some(diff(MAC, -45, 2, 10)), map.peek(&device("hall"), MAC));
    assert_eq!(Some(diff(MAC, -80, 1, 0)), map.peek(&device("kitchen"), MAC));
    assert_eq!(Some(diff(MAC, -10, 1, 0)), map.peek(&None, MAC));
    assert_eq!(Some(diff(MAC, -20, 1, 0)), map.peek(&device(""), MAC));
    assert_eq!(None, map.peek(&device("cellar"), MAC));
}

#[test]
fn update_of_one_bucket_leaves_the_others_alone() {
    let mut map = BeaconDiffMap::new();
    map.apply_update(&device("hall"), &beacon("AA", -40));
    map.apply_update(&device("hall"), &beacon("BB", -41));
    map.apply_update(&device("kitchen"), &beacon("AA", -42));
    map.apply_update(&device("hall"), &beacon("AA", -50));

    assert_eq!(Some(diff("AA", -45, 2, 10)), map.peek(&device("hall"), "AA"));
    assert_eq!(Some(diff("BB", -41, 1, 0)), map.peek(&device("hall"), "BB"));
    assert_eq!(Some(diff("AA", -42, 1, 0)), map.peek(&device("kitchen"), "AA"));
}

#[test]
fn reading_that_does_not_fit_is_passed_over() {
    let mut map = BeaconDiffMap::new();
    let list = BeaconList {
        device_identifier: None,
        beacons: vec![beacon("AA", i32::MIN), beacon("AA", i32::MAX), beacon("AA", -5)],
    };
    let result = get_beacon_diff(&mut map, &list);
    let expected = vec![diff("AA", i32::MIN, 1, 0), diff("AA", -1073741826, 2, -2147483643)];
    assert_eq!(expected, result);
    assert_eq!(Some(diff("AA", -1073741826, 2, -2147483643)), map.peek(&None, "AA"));

    assert_eq!(None, map.apply_update(&None, &beacon("AA", i32::MAX)));
    assert_eq!(Some(diff("AA", -1073741826, 2, -2147483643)), map.peek(&None, "AA"));
}

#[test]
fn count_never_goes_down() {
    let mut map = BeaconDiffMap::new();
    let mut last = 0;
    // The second and the fifth reading lie too far from the average and are
    // passed over.
    for rssi in [-60, i32::MAX, -61, i32::MIN, i32::MAX, -62] {
        map.apply_update(&None, &beacon("AA", rssi));
        let count = map.peek(&None, "AA").unwrap().count;
        assert!(count >= last);
        last = count;
    }
    assert_eq!(4, last);
}

fn orders(readings: &[i32]) -> Vec<Vec<i32>> {
    if readings.len() <= 1 {
        return vec![readings.to_vec()];
    }
    let mut all = Vec::new();
    for first in 0..readings.len() {
        let mut rest = readings.to_vec();
        let head = rest.remove(first);
        for mut tail in orders(&rest) {
            tail.insert(0, head);
            all.push(tail);
        }
    }
    all
}

#[test]
fn concurrent_updates_of_one_bucket_are_all_counted() {
    let readings = [-40, -69, -55, -90, -12];
    let shared = Arc::new(Mutex::new(BeaconDiffMap::new()));
    let runtime = tokio::runtime::Builder::new_multi_thread().worker_threads(4).build().unwrap();
    runtime.block_on(async {
        let mut tasks = Vec::new();
        for rssi in readings {
            let shared = Arc::clone(&shared);
            tasks.push(tokio::spawn(async move {
                let mut map = shared.lock().await;
                map.apply_update(&None, &beacon(MAC, rssi))
            }));
        }
        for task in tasks {
            assert!(task.await.unwrap().is_some());
        }
    });

    let state = shared.blocking_lock().peek(&None, MAC).unwrap();
    assert_eq!(5, state.count);

    let mut sequential = Vec::new();
    for order in orders(&readings) {
        let mut map = BeaconDiffMap::new();
        for rssi in order {
            map.apply_update(&None, &beacon(MAC, rssi));
        }
        sequential.push(map.peek(&None, MAC).unwrap());
    }
    assert_eq!(120, sequential.len());
    assert!(sequential.contains(&state));
}

#[test]
fn concurrent_batches_lose_no_reading() {
    let shared = Arc::new(Mutex::new(BeaconDiffMap::new()));
    let runtime = tokio::runtime::Builder::new_multi_thread().worker_threads(4).build().unwrap();
    runtime.block_on(async {
        let mut tasks = Vec::new();
        for batch in 0..50 {
            let shared = Arc::clone(&shared);
            tasks.push(tokio::spawn(async move {
                let list = BeaconList {
                    device_identifier: device("hall"),
                    beacons: vec![beacon("AA", -60 - batch), beacon("BB", -30), beacon("AA", -61)],
                };
                let mut map = shared.lock().await;
                get_beacon_diff(&mut map, &list).len()
            }));
        }
        for task in tasks {
            assert_eq!(3, task.await.unwrap());
        }
    });

    let map = shared.blocking_lock();
    assert_eq!(100, map.peek(&device("hall"), "AA").unwrap().count);
    assert_eq!(Some(diff("BB", -30, 50, 0)), map.peek(&device("hall"), "BB"));
}
