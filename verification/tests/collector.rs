use omnomon::collector::{
    core_index_in_lowercase, cuda_version_text, fan_label, gpu_entry_indices, is_thermal_zone, merge_gpu_process_lists,
    name_order, parse_core_index, BatteryCollector, BatteryState, GpuProcessInfo, GpuProcessType,
    ProcessState, ThermalCollector,
};

#[test]
fn battery_labels() {
    assert_eq!(BatteryState::Charging.label(), "Charging");
    assert_eq!(BatteryState::Discharging.label(), "Discharging");
    assert_eq!(BatteryState::Full.label(), "Full");
    assert_eq!(BatteryState::Empty.label(), "Empty");
    assert_eq!(BatteryState::default().label(), "Unknown");
}

#[test]
fn process_labels() {
    assert_eq!(ProcessState::Run.label(), "Run");
    assert_eq!(ProcessState::Sleep.label(), "Sleep");
    assert_eq!(ProcessState::Idle.label(), "Idle");
    assert_eq!(ProcessState::Zombie.label(), "Zomb");
    assert_eq!(ProcessState::Stop.label(), "Stop");
    assert_eq!(ProcessState::default().label(), "Other");
}

#[test]
fn core_index_from_sensor_labels() {
    assert_eq!(parse_core_index("Core 0"), Some(0));
    assert_eq!(parse_core_index("core 3"), Some(3));
    assert_eq!(parse_core_index("coretemp Core 12"), Some(12));
    assert_eq!(parse_core_index("CORE 7x"), Some(7));
    assert_eq!(parse_core_index("Package id 0"), None);
    assert_eq!(parse_core_index("Core"), None);
    assert_eq!(parse_core_index("Core x"), None);
    assert_eq!(parse_core_index("Core 99999999999999999999999"), None);
    assert_eq!(core_index_in_lowercase("coretemp core 4"), Some(4));
    assert_eq!(core_index_in_lowercase("Core 4"), None);
    assert_eq!(core_index_in_lowercase("core 18446744073709551615"), Some(usize::MAX));
}

#[test]
fn gpu_lists_merge() {
    let compute = vec![(100, 500), (200, 100)];
    let graphics = vec![(200, 300), (300, 50), (300, 80)];
    let merged = merge_gpu_process_lists(&compute, &graphics);
    let got: Vec<(u32, u64, GpuProcessType)> =
        merged.iter().map(|e| (e.pid, e.memory_used, e.process_type)).collect();
    assert_eq!(
        got,
        vec![
            (100, 500, GpuProcessType::Compute),
            (200, 300, GpuProcessType::Both),
            (300, 80, GpuProcessType::Both),
        ]
    );
    assert!(merge_gpu_process_lists(&vec![], &vec![]).is_empty());
}

fn info(pid: u32, mem: u64) -> GpuProcessInfo {
    GpuProcessInfo {
        pid,
        name: format!("p{}", pid),
        memory_used: mem,
        gpu_util: None,
        process_type: GpuProcessType::Compute,
    }
}

#[test]
fn gpu_entries_for_processes() {
    let gpu = vec![info(7, 1), info(9, 2), info(7, 3)];
    let idx = gpu_entry_indices(&vec![7, 8, 9], &gpu);
    assert_eq!(idx, vec![Some(2), None, Some(1)]);
    assert!(gpu_entry_indices(&vec![], &gpu).is_empty());
}

#[test]
fn thermal_collector_builds() {
    let _a = ThermalCollector::new();
    let _b: ThermalCollector = Default::default();
}

#[test]
fn fan_labels() {
    assert_eq!(fan_label(Some("CPU Fan".to_string()), "thinkpad", 1), "CPU Fan");
    assert_eq!(fan_label(None, "thinkpad", 2), "thinkpad fan2");
    assert_eq!(fan_label(None, "", 3), "Fan 3");
}

#[test]
fn thermal_zone_names() {
    assert!(is_thermal_zone("thermal_zone0"));
    assert!(is_thermal_zone("thermal_zone"));
    assert!(!is_thermal_zone("cooling_device0"));
    assert!(!is_thermal_zone("thermal_zon"));
    assert!(!is_thermal_zone("Thermal_zone1"));
}

#[test]
fn names_in_order() {
    let names: Vec<String> =
        ["wlan0", "eth0", "lo", "eth0", "Wifi"].iter().map(|s| s.to_string()).collect();
    assert_eq!(name_order(&names), vec![4, 1, 3, 2, 0]);
    assert!(name_order(&vec![]).is_empty());
}

#[test]
fn cuda_versions() {
    assert_eq!(cuda_version_text(12040), "12.4");
    assert_eq!(cuda_version_text(11080), "11.8");
    assert_eq!(cuda_version_text(9000), "9.0");
    assert_eq!(cuda_version_text(-12345), "-12.-34");
}

#[test]
fn battery_probe_outcomes() {
    // Only the decision is exercised here: opening the manager needs no battery.
    if let Ok(manager) = battery::Manager::new() {
        match BatteryCollector::from_probe(manager, Ok(false)) {
            Err(e) => assert_eq!(e, "no battery present"),
            Ok(_) => panic!("a collector without a battery"),
        }
    }
    if let Ok(manager) = battery::Manager::new() {
        match BatteryCollector::from_probe(manager, Err("listing failed".to_string())) {
            Err(e) => assert_eq!(e, "no battery present"),
            Ok(_) => panic!("a collector without a listing"),
        }
    }
    if let Ok(manager) = battery::Manager::new() {
        assert!(BatteryCollector::from_probe(manager, Ok(true)).is_ok());
    }
}
