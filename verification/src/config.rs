use std::path::PathBuf;

use vstd::prelude::*;

use crate::text::{ascii_lower, eq_ignore_ascii_case, str_eq};

verus! {

#[verifier::external_type_specification]
#[verifier::external_body]
pub struct ExPathBuf(PathBuf);

/// Command-line options.
pub struct CliArgs {
    /// Refresh rate in milliseconds (250–5000).
    pub rate: u64,
    /// Colour theme name.
    pub theme: Option<String>,
    /// Config file path.
    pub config: Option<PathBuf>,
    /// Disable GPU monitoring.
    pub no_gpu: bool,
    /// Show temperatures in Fahrenheit.
    pub fahrenheit: bool,
    /// Debug logging.
    pub verbose: bool,
}

/// `[general]` section of the config file.
pub struct GeneralConfig {
    pub refresh_rate_ms: u64,
    pub temperature_unit: String,
    pub default_tab: String,
    pub graph_time_window: String,
}

/// `[theme]` section of the config file.
pub struct ThemeConfig {
    pub name: String,
}

/// `[network]` section of the config file.
pub struct NetworkConfig {
    pub default_interface: String,
}

/// `[process]` section of the config file.
pub struct ProcessConfig {
    pub default_sort: String,
    pub show_gpu_column: bool,
}

/// `[dashboard]` section of the config file.
pub struct DashboardConfig {
    pub show_battery: bool,
    pub show_thermal: bool,
    pub show_disk: bool,
}

/// The config file; every key is optional and missing ones take the defaults.
pub struct ConfigFile {
    pub general: GeneralConfig,
    pub theme: ThemeConfig,
    pub network: NetworkConfig,
    pub process: ProcessConfig,
    pub dashboard: DashboardConfig,
}

impl Default for GeneralConfig {
    fn default() -> (r: Self)
        ensures
            r.refresh_rate_ms == 1000,
            r.temperature_unit@ == "celsius"@,
            r.default_tab@ == "dashboard"@,
            r.graph_time_window@ == "60s"@,
    {
        GeneralConfig {
            refresh_rate_ms: 1000,
            temperature_unit: "celsius".to_owned(),
            default_tab: "dashboard".to_owned(),
            graph_time_window: "60s".to_owned(),
        }
    }
}

impl Default for ThemeConfig {
    fn default() -> (r: Self)
        ensures
            r.name@ == "default"@,
    {
        ThemeConfig { name: "default".to_owned() }
    }
}

impl Default for NetworkConfig {
    fn default() -> (r: Self)
        ensures
            r.default_interface@ == "auto"@,
    {
        NetworkConfig { default_interface: "auto".to_owned() }
    }
}

impl Default for ProcessConfig {
    fn default() -> (r: Self)
        ensures
            r.default_sort@ == "cpu"@,
            r.show_gpu_column,
    {
        ProcessConfig { default_sort: "cpu".to_owned(), show_gpu_column: true }
    }
}

impl Default for DashboardConfig {
    fn default() -> (r: Self)
        ensures
            r.show_battery,
            r.show_thermal,
            r.show_disk,
    {
        DashboardConfig { show_battery: true, show_thermal: true, show_disk: true }
    }
}

/// Whether `f` holds the default value of every key.
pub open spec fn is_default_config(f: ConfigFile) -> bool {
    &&& f.general.refresh_rate_ms == 1000
    &&& f.general.temperature_unit@ == "celsius"@
    &&& f.general.default_tab@ == "dashboard"@
    &&& f.general.graph_time_window@ == "60s"@
    &&& f.theme.name@ == "default"@
    &&& f.network.default_interface@ == "auto"@
    &&& f.process.default_sort@ == "cpu"@
    &&& f.process.show_gpu_column
    &&& f.dashboard.show_battery
    &&& f.dashboard.show_thermal
    &&& f.dashboard.show_disk
}

impl Default for ConfigFile {
    fn default() -> (r: Self)
        ensures
            is_default_config(r),
    {
        ConfigFile {
            general: GeneralConfig::default(),
            theme: ThemeConfig::default(),
            network: NetworkConfig::default(),
            process: ProcessConfig::default(),
            dashboard: DashboardConfig::default(),
        }
    }
}

/// Settings after command-line options and the config file are combined.
pub struct ResolvedConfig {
    pub refresh_rate_ms: u64,
    pub theme_name: String,
    pub fahrenheit: bool,
    pub no_gpu: bool,
    pub graph_time_window_secs: u64,
    pub default_interface: String,
    pub default_sort: String,
    pub show_gpu_column: bool,
    pub show_battery: bool,
    pub show_thermal: bool,
    pub show_disk: bool,
    pub default_tab: String,
}

/// `x` limited to `lo..=hi`.
pub open spec fn clamp(x: int, lo: int, hi: int) -> int {
    if x < lo {
        lo
    } else if x > hi {
        hi
    } else {
        x
    }
}

/// The refresh period in milliseconds: a command-line rate other than the
/// default 1000 wins over the config file; the result is kept in 250..=5000.
pub open spec fn resolved_rate(cli_rate: u64, file_rate: u64) -> int {
    if cli_rate != 1000 {
        clamp(cli_rate as int, 250, 5000)
    } else {
        clamp(file_rate as int, 250, 5000)
    }
}

/// The graph window in seconds named by the config file: `30s`, `5m`, else 60.
pub open spec fn window_secs(name: Seq<char>) -> int {
    if name == "30s"@ {
        30
    } else if name == "5m"@ {
        300
    } else {
        60
    }
}

fn clamp_u64(x: u64, lo: u64, hi: u64) -> (r: u64)
    requires
        lo <= hi,
    ensures
        r == clamp(x as int, lo as int, hi as int),
{
    if x < lo {
        lo
    } else if x > hi {
        hi
    } else {
        x
    }
}

impl ResolvedConfig {
    /// Combines command-line options with the config file; command-line
    /// options win where they are given.
    pub fn from(args: &CliArgs, file: &ConfigFile) -> (r: Self)
        ensures
            r.refresh_rate_ms == resolved_rate(args.rate, file.general.refresh_rate_ms),
            r.theme_name@ == (match args.theme {
                Some(t) => t@,
                None => file.theme.name@,
            }),
            r.fahrenheit == (args.fahrenheit || ascii_lower(file.general.temperature_unit@)
                == ascii_lower("fahrenheit"@)),
            r.no_gpu == args.no_gpu,
            r.graph_time_window_secs == window_secs(file.general.graph_time_window@),
            r.default_interface@ == file.network.default_interface@,
            r.default_sort@ == file.process.default_sort@,
            r.show_gpu_column == file.process.show_gpu_column,
            r.show_battery == file.dashboard.show_battery,
            r.show_thermal == file.dashboard.show_thermal,
            r.show_disk == file.dashboard.show_disk,
            r.default_tab@ == file.general.default_tab@,
    {
        let rate_ms = if args.rate != 1000 {
            args.rate
        } else {
            clamp_u64(file.general.refresh_rate_ms, 250, 5000)
        };
        let theme_name = match &args.theme {
            Some(t) => t.clone(),
            None => file.theme.name.clone(),
        };
        let fahrenheit = args.fahrenheit || eq_ignore_ascii_case(
            file.general.temperature_unit.as_str(),
            "fahrenheit",
        );
        let window = file.general.graph_time_window.as_str();
        let graph_time_window_secs = if str_eq(window, "30s") {
            30
        } else if str_eq(window, "5m") {
            300
        } else {
            60
        };
        ResolvedConfig {
            refresh_rate_ms: clamp_u64(rate_ms, 250, 5000),
            theme_name,
            fahrenheit,
            no_gpu: args.no_gpu,
            graph_time_window_secs,
            default_interface: file.network.default_interface.clone(),
            default_sort: file.process.default_sort.clone(),
            show_gpu_column: file.process.show_gpu_column,
            show_battery: file.dashboard.show_battery,
            show_thermal: file.dashboard.show_thermal,
            show_disk: file.dashboard.show_disk,
            default_tab: file.general.default_tab.clone(),
        }
    }
}

/// The refresh period always lies in 250..=5000 ms, and a command-line
/// rate other than the default 1000 wins over the config file.
pub proof fn law_refresh_rate_bounds(cli_rate: u64, file_rate: u64)
    ensures
        250 <= resolved_rate(cli_rate, file_rate) <= 5000,
        cli_rate != 1000 ==> resolved_rate(cli_rate, file_rate) == clamp(cli_rate as int, 250, 5000),
        cli_rate == 1000 ==> resolved_rate(cli_rate, file_rate) == clamp(file_rate as int, 250, 5000),
{
}

/// The graph window named in the config file is always 30 s, 60 s or 5 min.
pub proof fn law_window_choices(name: Seq<char>)
    ensures
        window_secs(name) == 30 || window_secs(name) == 60 || window_secs(name) == 300,
{
}

} // verus!
