use omnomon::config::{CliArgs, ConfigFile, ResolvedConfig};
use omnomon::state::{AppState, ProcessSortColumn, Tab};

fn cfg() -> ResolvedConfig {
    let args = CliArgs {
        rate: 1000,
        theme: None,
        config: None,
        no_gpu: false,
        fahrenheit: false,
        verbose: false,
    };
    ResolvedConfig::from(&args, &ConfigFile::default())
}

#[test]
fn tab_cycle_forward() {
    let mut s = AppState::new(&cfg());
    assert_eq!(s.current_tab, Tab::Dashboard);
    s.next_tab();
    assert_eq!(s.current_tab, Tab::Cpu);
}

#[test]
fn tab_cycle_back() {
    let mut s = AppState::new(&cfg());
    s.prev_tab();
    assert_eq!(s.current_tab, Tab::Thermal);
}

#[test]
fn sort_cycles() {
    let mut col = ProcessSortColumn::Cpu;
    col = col.next();
    assert_eq!(col, ProcessSortColumn::Memory);
}

#[test]
fn tabs_round_trip() {
    for (i, t) in Tab::ALL.iter().enumerate() {
        assert_eq!(t.index(), i);
        assert_eq!(Tab::from_index(i), *t);
        assert_eq!(Tab::from_index(i + 9), *t);
        assert_eq!(Tab::from_name(t.label()), *t);
    }
    let mut s = AppState::new(&cfg());
    for _ in 0..9 {
        s.next_tab();
    }
    assert_eq!(s.current_tab, Tab::Dashboard);
    s.next_tab();
    s.prev_tab();
    assert_eq!(s.current_tab, Tab::Dashboard);
    s.current_tab = Tab::Memory;
    for _ in 0..9 {
        s.prev_tab();
    }
    assert_eq!(s.current_tab, Tab::Memory);
}

#[test]
fn tab_names() {
    assert_eq!(Tab::from_name("MEM"), Tab::Memory);
    assert_eq!(Tab::from_name("Proc"), Tab::Processes);
    assert_eq!(Tab::from_name("net"), Tab::Network);
    assert_eq!(Tab::from_name("nonsense"), Tab::Dashboard);
    assert_eq!(Tab::Cpu.label(), "CPU");
}

#[test]
fn sort_columns() {
    let mut col = ProcessSortColumn::Cpu;
    for _ in 0..5 {
        col = col.next();
    }
    assert_eq!(col, ProcessSortColumn::Cpu);
    assert_eq!(ProcessSortColumn::from_name("Mem"), ProcessSortColumn::Memory);
    assert_eq!(ProcessSortColumn::from_name("PID"), ProcessSortColumn::Pid);
    assert_eq!(ProcessSortColumn::from_name("whatever"), ProcessSortColumn::Cpu);
    assert_eq!(ProcessSortColumn::Memory.label(), "MEM%");
}

#[test]
fn graph_window_zoom() {
    let mut s = AppState::new(&cfg());
    assert_eq!(s.graph_time_window_secs, 60);
    assert_eq!(s.history_capacity(), 60);
    assert_eq!(s.cycle_graph_window(true), 30);
    assert_eq!(s.cycle_graph_window(true), 30);
    assert_eq!(s.cycle_graph_window(false), 60);
    assert_eq!(s.cycle_graph_window(false), 300);
    assert_eq!(s.cycle_graph_window(false), 300);
    assert_eq!(s.cycle_graph_window(true), 60);
}

#[test]
fn interface_resolution() {
    let mut s = AppState::new(&cfg());
    // "auto" keeps the first interface
    s.resolve_interface(&vec!["eth0".to_string(), "wlan0".to_string()]);
    assert!(s.interface_resolved);
    assert_eq!(s.selected_network_interface, 0);

    let mut s = AppState::new(&cfg());
    s.default_interface = "wlan0".to_string();
    s.resolve_interface(&vec![]);
    assert!(!s.interface_resolved);
    s.resolve_interface(&vec!["eth0".to_string(), "wlan0".to_string()]);
    assert_eq!(s.selected_network_interface, 1);
    assert_eq!(s.active_interface(2), 1);
    assert_eq!(s.active_interface(1), 0);
    assert_eq!(s.active_interface(0), 0);
    // only applied once
    s.selected_network_interface = 0;
    s.resolve_interface(&vec!["eth0".to_string(), "wlan0".to_string()]);
    assert_eq!(s.selected_network_interface, 0);
}
