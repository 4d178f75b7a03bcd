use std::time::Duration;

use omnomon::collector::{BatteryState, FanInfo, GpuProcessType, ProcessState};
use omnomon::config::{CliArgs, ConfigFile, ResolvedConfig};
use omnomon::state::{AppState, Tab};
use omnomon::ui::{
    bar_cells, battery_eta_brief, battery_eta_detail, battery_icon, dashboard_layout, fan_summary,
    filter_caption, gpu_process_type_label, highlighted_row, process_title, status_line,
    tab_caption, truncate, truncate_front, Panel, Part, Placement,
};

#[test]
fn truncate_keeps_short_labels() {
    assert_eq!(truncate("bash", 10), "bash");
    assert_eq!(truncate("bash", 4), "bash");
    assert_eq!(truncate("", 0), "");
}

#[test]
fn truncate_marks_the_cut() {
    assert_eq!(truncate("firefox-bin", 5), "fire…");
    assert_eq!(truncate("abc", 1), "…");
    assert_eq!(truncate("größenwahn", 4), "grö…");
}

#[test]
fn truncate_front_keeps_the_end() {
    assert_eq!(truncate_front("/home", 10), "/home");
    assert_eq!(truncate_front("/mnt/storage/data", 6), "…/data");
}

#[test]
fn bars() {
    assert_eq!(bar_cells(0, 4), "░░░░");
    assert_eq!(bar_cells(3, 5), "███░░");
    assert_eq!(bar_cells(5, 5), "█████");
    assert_eq!(bar_cells(7, 5), "███████");
    assert_eq!(bar_cells(0, 0), "");
}

#[test]
fn tab_captions_and_status() {
    assert_eq!(tab_caption(0, Tab::Dashboard), " [1] Dashboard ");
    assert_eq!(tab_caption(6, Tab::Processes), " [7] Processes ");
    let args = CliArgs { rate: 500, theme: Some("nord".into()), config: None, no_gpu: false, fahrenheit: false, verbose: false };
    let s = AppState::new(&ResolvedConfig::from(&args, &ConfigFile::default()));
    assert_eq!(status_line(&s), " rate 500ms · graph 60s · theme nord · [?] help · [q] quit");
}

#[test]
fn battery_texts() {
    let t = Some(Duration::from_secs(3725));
    assert_eq!(battery_icon(BatteryState::Charging), "⚡");
    assert_eq!(battery_icon(BatteryState::Unknown), "?");
    assert_eq!(battery_eta_brief(BatteryState::Charging, t, None), "ETA 1:02:05");
    assert_eq!(battery_eta_brief(BatteryState::Discharging, t, None), "ETA --");
    assert_eq!(battery_eta_brief(BatteryState::Full, t, t), "Full");
    assert_eq!(battery_eta_brief(BatteryState::Empty, t, t), "ETA --");
    assert_eq!(battery_eta_detail(BatteryState::Discharging, None, Some(Duration::from_secs(59))), "ETA empty: 0:59");
    assert_eq!(battery_eta_detail(BatteryState::Charging, None, t), "ETA full: --");
    assert_eq!(battery_eta_detail(BatteryState::Full, None, None), "Fully charged");
    assert_eq!(battery_eta_detail(BatteryState::Unknown, t, t), "ETA: --");
}

#[test]
fn process_tab_texts() {
    let states = vec![ProcessState::Run, ProcessState::Sleep, ProcessState::Idle, ProcessState::Zombie, ProcessState::Run];
    assert_eq!(process_title(&states), "Processes · Total 5 · Running 2 · Sleeping 2");
    assert_eq!(process_title(&vec![]), "Processes · Total 0 · Running 0 · Sleeping 0");
    assert_eq!(filter_caption("fire", true), "[fire_]");
    assert_eq!(filter_caption("", false), "[(press / to filter)]");
    assert_eq!(filter_caption("fire", false), "[fire]");
    assert_eq!(highlighted_row(3, 10), Some(3));
    assert_eq!(highlighted_row(12, 10), Some(9));
    assert_eq!(highlighted_row(0, 0), None);
    assert_eq!(gpu_process_type_label(GpuProcessType::Both), "Both");
}

#[test]
fn fan_line() {
    let fan = |name: &str, rpm: u32| FanInfo { name: name.to_string(), rpm, min_rpm: None, max_rpm: None };
    assert_eq!(fan_summary(&vec![]), "");
    assert_eq!(fan_summary(&vec![fan("cpu", 2400)]), "cpu 2400rpm");
    assert_eq!(
        fan_summary(&vec![fan("thinkpad fan1", 0), fan("gpu", 1800)]),
        "thinkpa… 0rpm  gpu 1800rpm"
    );
}

#[test]
fn dashboard_layouts() {
    let p = |row: usize, part: Part, panel: Panel| Placement { row, part, panel };
    let wide = dashboard_layout(120, true, true, true, false, false);
    assert_eq!(wide.row_percents, vec![30, 18, 17, 35]);
    assert_eq!(
        wide.panels,
        vec![
            p(0, Part::Left, Panel::Cpu),
            p(0, Part::Right, Panel::Gpu),
            p(1, Part::Left, Panel::Memory),
            p(1, Part::Right, Panel::Battery),
            p(2, Part::Left, Panel::Disk),
            p(2, Part::Right, Panel::Network),
            p(3, Part::Left, Panel::Thermal),
            p(3, Part::Right, Panel::Processes),
        ]
    );
    let bare = dashboard_layout(100, false, false, false, true, true);
    assert_eq!(
        bare.panels,
        vec![
            p(0, Part::Left, Panel::Cpu),
            p(0, Part::Right, Panel::Gpu),
            p(1, Part::Left, Panel::Memory),
            p(1, Part::Right, Panel::Network),
            p(2, Part::Left, Panel::Network),
            p(2, Part::Right, Panel::Processes),
            p(3, Part::Whole, Panel::Processes),
        ]
    );
    let narrow = dashboard_layout(99, true, true, true, true, false);
    assert_eq!(narrow.row_percents, vec![28, 20, 14, 38]);
    assert_eq!(
        narrow.panels,
        vec![
            p(0, Part::Whole, Panel::Cpu),
            p(1, Part::Left, Panel::Memory),
            p(1, Part::Right, Panel::Gpu),
            p(2, Part::Left, Panel::Disk),
            p(2, Part::Right, Panel::Network),
            p(3, Part::Whole, Panel::Processes),
        ]
    );
}
