use std::path::PathBuf;

use omnomon::config::{CliArgs, ConfigFile, ResolvedConfig};

fn args(rate: u64) -> CliArgs {
    CliArgs {
        rate,
        theme: None,
        config: None,
        no_gpu: false,
        fahrenheit: false,
        verbose: false,
    }
}

#[test]
fn config_file_defaults() {
    let f = ConfigFile::default();
    assert_eq!(f.general.refresh_rate_ms, 1000);
    assert_eq!(f.general.temperature_unit, "celsius");
    assert_eq!(f.general.default_tab, "dashboard");
    assert_eq!(f.general.graph_time_window, "60s");
    assert_eq!(f.theme.name, "default");
    assert_eq!(f.network.default_interface, "auto");
    assert_eq!(f.process.default_sort, "cpu");
    assert!(f.process.show_gpu_column);
    assert!(f.dashboard.show_battery && f.dashboard.show_thermal && f.dashboard.show_disk);
}

#[test]
fn resolved_defaults() {
    let r = ResolvedConfig::from(&args(1000), &ConfigFile::default());
    assert_eq!(r.refresh_rate_ms, 1000);
    assert_eq!(r.theme_name, "default");
    assert!(!r.fahrenheit);
    assert!(!r.no_gpu);
    assert_eq!(r.graph_time_window_secs, 60);
    assert_eq!(r.default_interface, "auto");
    assert_eq!(r.default_sort, "cpu");
    assert_eq!(r.default_tab, "dashboard");
}

#[test]
fn cli_rate_wins_and_is_clamped() {
    let mut f = ConfigFile::default();
    f.general.refresh_rate_ms = 2000;
    assert_eq!(ResolvedConfig::from(&args(1000), &f).refresh_rate_ms, 2000);
    assert_eq!(ResolvedConfig::from(&args(500), &f).refresh_rate_ms, 500);
    assert_eq!(ResolvedConfig::from(&args(10), &f).refresh_rate_ms, 250);
    assert_eq!(ResolvedConfig::from(&args(99_999), &f).refresh_rate_ms, 5000);
    f.general.refresh_rate_ms = 1;
    assert_eq!(ResolvedConfig::from(&args(1000), &f).refresh_rate_ms, 250);
    f.general.refresh_rate_ms = 60_000;
    assert_eq!(ResolvedConfig::from(&args(1000), &f).refresh_rate_ms, 5000);
}

#[test]
fn theme_and_units() {
    let mut f = ConfigFile::default();
    f.theme.name = "nord".to_string();
    f.general.temperature_unit = "FahrenHeit".to_string();
    let mut a = args(1000);
    let r = ResolvedConfig::from(&a, &f);
    assert_eq!(r.theme_name, "nord");
    assert!(r.fahrenheit);
    a.theme = Some("dracula".to_string());
    a.no_gpu = true;
    a.config = Some(PathBuf::from("/tmp/x.toml"));
    f.general.temperature_unit = "kelvin".to_string();
    let r = ResolvedConfig::from(&a, &f);
    assert_eq!(r.theme_name, "dracula");
    assert!(!r.fahrenheit);
    assert!(r.no_gpu);
    a.fahrenheit = true;
    assert!(ResolvedConfig::from(&a, &f).fahrenheit);
}

#[test]
fn graph_windows() {
    let mut f = ConfigFile::default();
    f.general.graph_time_window = "30s".to_string();
    assert_eq!(ResolvedConfig::from(&args(1000), &f).graph_time_window_secs, 30);
    f.general.graph_time_window = "5m".to_string();
    assert_eq!(ResolvedConfig::from(&args(1000), &f).graph_time_window_secs, 300);
    f.general.graph_time_window = "5M".to_string();
    assert_eq!(ResolvedConfig::from(&args(1000), &f).graph_time_window_secs, 60);
    f.general.graph_time_window = "2h".to_string();
    assert_eq!(ResolvedConfig::from(&args(1000), &f).graph_time_window_secs, 60);
}
