use acpr_haptics::registry::{Device, DeviceRegistry};

fn device(id: u32, connected: bool) -> Device {
    Device::new(id, format!("device {}", id), true, connected)
}

fn ids(registry: &DeviceRegistry) -> Vec<u32> {
    registry.snapshot().iter().map(|d| d.id).collect()
}

#[test]
fn new_registry_is_empty() {
    let registry = DeviceRegistry::new();
    assert_eq!(registry.len(), 0);
    assert!(registry.snapshot().is_empty());
    assert_eq!(registry.position(1), None);
}

#[test]
fn add_appends_in_order() {
    let mut registry = DeviceRegistry::new();
    assert!(!registry.add(device(5, true)));
    assert!(!registry.add(device(2, true)));
    assert!(!registry.add(device(9, true)));
    assert_eq!(ids(&registry), vec![5, 2, 9]);
    assert_eq!(registry.position(2), Some(1));
    assert_eq!(registry.position(7), None);
}

#[test]
fn add_replaces_a_duplicate_identifier() {
    let mut registry = DeviceRegistry::new();
    registry.add(device(5, true));
    registry.add(device(2, true));
    let replacement = Device::new(5, String::from("renamed"), false, true);
    assert!(registry.add(replacement.clone()));
    assert_eq!(registry.len(), 2);
    assert_eq!(ids(&registry), vec![5, 2]);
    assert_eq!(registry.snapshot()[0], replacement);
}

#[test]
fn remove_also_drops_devices_that_report_disconnected() {
    let mut registry = DeviceRegistry::new();
    registry.add(device(1, true));
    registry.add(device(2, true));
    registry.add(device(3, true));
    registry.add(device(4, true));
    assert!(registry.set_connected(3, false));
    registry.remove(1);
    assert_eq!(ids(&registry), vec![2, 4]);
}

#[test]
fn remove_handles_neighbouring_stale_devices() {
    let mut registry = DeviceRegistry::new();
    for id in 1..=5u32 {
        registry.add(device(id, true));
    }
    registry.set_connected(1, false);
    registry.set_connected(2, false);
    registry.set_connected(5, false);
    registry.remove(2);
    assert_eq!(ids(&registry), vec![3, 4]);
}

#[test]
fn remove_drops_the_named_device_even_if_it_reports_connected() {
    let mut registry = DeviceRegistry::new();
    registry.add(device(1, true));
    registry.add(device(2, true));
    registry.remove(2);
    assert_eq!(ids(&registry), vec![1]);
}

#[test]
fn remove_of_an_unknown_device_still_reconciles() {
    let mut registry = DeviceRegistry::new();
    registry.add(device(1, true));
    registry.add(device(2, false));
    registry.remove(77);
    assert_eq!(ids(&registry), vec![1]);
    registry.remove(77);
    assert_eq!(ids(&registry), vec![1]);
}

#[test]
fn set_connected_reports_unknown_devices() {
    let mut registry = DeviceRegistry::new();
    registry.add(device(1, true));
    assert!(!registry.set_connected(8, false));
    assert_eq!(registry.snapshot(), vec![device(1, true)]);
    assert!(registry.set_connected(1, false));
    assert_eq!(registry.snapshot(), vec![device(1, false)]);
}

#[test]
fn snapshot_outlives_removal() {
    let mut registry = DeviceRegistry::new();
    registry.add(device(1, true));
    registry.add(device(2, true));
    let handles = registry.snapshot();
    registry.remove(1);
    registry.remove(2);
    assert_eq!(registry.len(), 0);
    assert_eq!(handles, vec![device(1, true), device(2, true)]);
}

#[test]
fn reconcile_drops_every_device_that_answers_disconnected() {
    let mut registry = DeviceRegistry::new();
    for id in [10u32, 20, 30, 40] {
        registry.add(device(id, true));
    }
    let readings = vec![(10, true), (20, false), (30, true), (40, true)];
    registry.reconcile(10, &readings);
    assert_eq!(ids(&registry), vec![30, 40]);
}

#[test]
fn reconcile_goes_by_the_latest_reading() {
    let mut registry = DeviceRegistry::new();
    for id in [1u32, 2, 3] {
        registry.add(device(id, true));
    }
    registry.set_connected(3, false);
    let readings = vec![(2, false), (3, true), (2, true), (1, false), (9, false)];
    registry.reconcile(7, &readings);
    assert_eq!(ids(&registry), vec![2, 3]);
    assert_eq!(registry.snapshot(), vec![device(2, true), device(3, true)]);
}

#[test]
fn reconcile_without_readings_is_a_plain_removal() {
    let mut registry = DeviceRegistry::new();
    for id in [1u32, 2, 3] {
        registry.add(device(id, true));
    }
    registry.reconcile(2, &Vec::new());
    assert_eq!(ids(&registry), vec![1, 3]);
}
