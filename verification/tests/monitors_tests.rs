use fps_enhancer::monitors::{filter_active_monitors, DisplayDevice, MonitorMap};

fn device(name: &str, desc: &str, flags: u32) -> DisplayDevice {
    DisplayDevice {
        device_name: String::from(name),
        device_string: String::from(desc),
        state_flags: flags,
    }
}

#[test]
fn enumeration_excludes_inactive_devices() {
    // three devices, one inactive: exactly two entries come back
    let devices = vec![
        device("\\\\.\\DISPLAY1", "GPU A", 0b101),
        device("\\\\.\\DISPLAY2", "GPU A", 0b100),
        device("\\\\.\\DISPLAY3", "GPU B", 0b001),
    ];
    let m = filter_active_monitors(devices);
    assert_eq!(m.len(), 2);
    assert!(m.get(&String::from("\\\\.\\DISPLAY1")).is_some());
    assert!(m.get(&String::from("\\\\.\\DISPLAY2")).is_none());
    assert!(m.get(&String::from("\\\\.\\DISPLAY3")).is_some());
}

#[test]
fn empty_device_list_gives_empty_map() {
    let m = filter_active_monitors(Vec::new());
    assert_eq!(m.len(), 0);
}

#[test]
fn descriptions_are_keyed_by_device_name() {
    let devices = vec![
        device("\\\\.\\DISPLAY1", "Adapter One", 1),
        device("\\\\.\\DISPLAY2", "Adapter Two", 1),
    ];
    let m = filter_active_monitors(devices);
    assert_eq!(
        m.get(&String::from("\\\\.\\DISPLAY1")).unwrap(),
        "Adapter One"
    );
    assert_eq!(
        m.get(&String::from("\\\\.\\DISPLAY2")).unwrap(),
        "Adapter Two"
    );
}

#[test]
fn later_duplicate_name_wins() {
    let devices = vec![
        device("\\\\.\\DISPLAY1", "Old Adapter", 1),
        device("\\\\.\\DISPLAY1", "New Adapter", 1),
    ];
    let m = filter_active_monitors(devices);
    assert_eq!(m.len(), 1);
    assert_eq!(
        m.get(&String::from("\\\\.\\DISPLAY1")).unwrap(),
        "New Adapter"
    );
}

#[test]
fn insert_replaces_existing_entry() {
    let mut m = MonitorMap::new();
    m.insert(String::from("\\\\.\\DISPLAY1"), String::from("A"));
    m.insert(String::from("\\\\.\\DISPLAY1"), String::from("B"));
    m.insert(String::from("\\\\.\\DISPLAY2"), String::from("C"));
    assert_eq!(m.len(), 2);
    assert_eq!(m.get(&String::from("\\\\.\\DISPLAY1")).unwrap(), "B");
}
