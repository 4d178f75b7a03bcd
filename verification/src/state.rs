use vstd::prelude::*;

use crate::config::ResolvedConfig;
use crate::text::{ascii_lower, ascii_lower_is, eq_ignore_ascii_case};
use crate::theme::{theme_colors, theme_key, palette, Theme};

verus! {

/// The screens of the monitor, in the order in which `Tab` cycles through them.
#[derive(Copy, Clone, PartialEq, Eq, Debug, Structural)]
pub enum Tab {
    Dashboard,
    Cpu,
    Gpu,
    Memory,
    Disk,
    Network,
    Processes,
    Battery,
    Thermal,
}

/// Number of tabs.
pub const TAB_COUNT: usize = 9;

/// Position of a tab in the cycling order.
pub open spec fn tab_position(t: Tab) -> nat {
    match t {
        Tab::Dashboard => 0,
        Tab::Cpu => 1,
        Tab::Gpu => 2,
        Tab::Memory => 3,
        Tab::Disk => 4,
        Tab::Network => 5,
        Tab::Processes => 6,
        Tab::Battery => 7,
        Tab::Thermal => 8,
    }
}

/// The tab at position `i` of the cycling order, counted modulo the number of tabs.
pub open spec fn tab_at(i: nat) -> Tab {
    let k = i % 9;
    if k == 0 {
        Tab::Dashboard
    } else if k == 1 {
        Tab::Cpu
    } else if k == 2 {
        Tab::Gpu
    } else if k == 3 {
        Tab::Memory
    } else if k == 4 {
        Tab::Disk
    } else if k == 5 {
        Tab::Network
    } else if k == 6 {
        Tab::Processes
    } else if k == 7 {
        Tab::Battery
    } else {
        Tab::Thermal
    }
}

impl Tab {
    /// Every tab, in cycling order.
    pub const ALL: [Tab; 9] = [
        Tab::Dashboard,
        Tab::Cpu,
        Tab::Gpu,
        Tab::Memory,
        Tab::Disk,
        Tab::Network,
        Tab::Processes,
        Tab::Battery,
        Tab::Thermal,
    ];

    pub fn index(self) -> (r: usize)
        ensures
            r == tab_position(self),
            r < TAB_COUNT,
    {
        match self {
            Tab::Dashboard => 0,
            Tab::Cpu => 1,
            Tab::Gpu => 2,
            Tab::Memory => 3,
            Tab::Disk => 4,
            Tab::Network => 5,
            Tab::Processes => 6,
            Tab::Battery => 7,
            Tab::Thermal => 8,
        }
    }

    pub fn from_index(i: usize) -> (t: Tab)
        ensures
            t == tab_at(i as nat),
    {
        let k = i % TAB_COUNT;
        if k == 0 {
            Tab::Dashboard
        } else if k == 1 {
            Tab::Cpu
        } else if k == 2 {
            Tab::Gpu
        } else if k == 3 {
            Tab::Memory
        } else if k == 4 {
            Tab::Disk
        } else if k == 5 {
            Tab::Network
        } else if k == 6 {
            Tab::Processes
        } else if k == 7 {
            Tab::Battery
        } else {
            Tab::Thermal
        }
    }
}

/// The title shown for a tab.
pub open spec fn tab_label(t: Tab) -> Seq<char> {
    match t {
        Tab::Dashboard => "Dashboard"@,
        Tab::Cpu => "CPU"@,
        Tab::Gpu => "GPU"@,
        Tab::Memory => "Memory"@,
        Tab::Disk => "Disk"@,
        Tab::Network => "Network"@,
        Tab::Processes => "Processes"@,
        Tab::Battery => "Battery"@,
        Tab::Thermal => "Thermal"@,
    }
}

/// The tab a configured name selects, compared without regard to ASCII case;
/// unknown names select the dashboard.
pub open spec fn tab_named(name: Seq<char>) -> Tab {
    let l = ascii_lower(name);
    if l == "cpu"@ {
        Tab::Cpu
    } else if l == "gpu"@ {
        Tab::Gpu
    } else if l == "memory"@ || l == "mem"@ {
        Tab::Memory
    } else if l == "disk"@ {
        Tab::Disk
    } else if l == "network"@ || l == "net"@ {
        Tab::Network
    } else if l == "processes"@ || l == "process"@ || l == "proc"@ {
        Tab::Processes
    } else if l == "battery"@ {
        Tab::Battery
    } else if l == "thermal"@ {
        Tab::Thermal
    } else {
        Tab::Dashboard
    }
}

impl Tab {
    pub fn label(self) -> (r: &'static str)
        ensures
            r@ == tab_label(self),
    {
        match self {
            Tab::Dashboard => "Dashboard",
            Tab::Cpu => "CPU",
            Tab::Gpu => "GPU",
            Tab::Memory => "Memory",
            Tab::Disk => "Disk",
            Tab::Network => "Network",
            Tab::Processes => "Processes",
            Tab::Battery => "Battery",
            Tab::Thermal => "Thermal",
        }
    }

    pub fn from_name(name: &str) -> (t: Tab)
        ensures
            t == tab_named(name@),
    {
        if ascii_lower_is(name, "cpu") {
            Tab::Cpu
        } else if ascii_lower_is(name, "gpu") {
            Tab::Gpu
        } else if ascii_lower_is(name, "memory") || ascii_lower_is(name, "mem") {
            Tab::Memory
        } else if ascii_lower_is(name, "disk") {
            Tab::Disk
        } else if ascii_lower_is(name, "network") || ascii_lower_is(name, "net") {
            Tab::Network
        } else if ascii_lower_is(name, "processes") || ascii_lower_is(name, "process")
            || ascii_lower_is(name, "proc") {
            Tab::Processes
        } else if ascii_lower_is(name, "battery") {
            Tab::Battery
        } else if ascii_lower_is(name, "thermal") {
            Tab::Thermal
        } else {
            Tab::Dashboard
        }
    }
}

/// The column the process table is ordered by.
#[derive(Copy, Clone, PartialEq, Eq, Debug, Structural)]
pub enum ProcessSortColumn {
    Cpu,
    Memory,
    Pid,
    Name,
    Gpu,
}

/// The column that follows `c` when the sort column is cycled.
pub open spec fn sort_column_after(c: ProcessSortColumn) -> ProcessSortColumn {
    match c {
        ProcessSortColumn::Cpu => ProcessSortColumn::Memory,
        ProcessSortColumn::Memory => ProcessSortColumn::Pid,
        ProcessSortColumn::Pid => ProcessSortColumn::Name,
        ProcessSortColumn::Name => ProcessSortColumn::Gpu,
        ProcessSortColumn::Gpu => ProcessSortColumn::Cpu,
    }
}

/// The header shown for a sort column.
pub open spec fn sort_column_label(c: ProcessSortColumn) -> Seq<char> {
    match c {
        ProcessSortColumn::Cpu => "CPU%"@,
        ProcessSortColumn::Memory => "MEM%"@,
        ProcessSortColumn::Pid => "PID"@,
        ProcessSortColumn::Name => "NAME"@,
        ProcessSortColumn::Gpu => "GPU"@,
    }
}

/// The sort column a configured name selects, compared without regard to
/// ASCII case; unknown names select CPU.
pub open spec fn sort_column_named(name: Seq<char>) -> ProcessSortColumn {
    let l = ascii_lower(name);
    if l == "memory"@ || l == "mem"@ {
        ProcessSortColumn::Memory
    } else if l == "pid"@ {
        ProcessSortColumn::Pid
    } else if l == "name"@ {
        ProcessSortColumn::Name
    } else if l == "gpu"@ {
        ProcessSortColumn::Gpu
    } else {
        ProcessSortColumn::Cpu
    }
}

impl ProcessSortColumn {
    pub fn next(self) -> (r: Self)
        ensures
            r == sort_column_after(self),
    {
        match self {
            ProcessSortColumn::Cpu => ProcessSortColumn::Memory,
            ProcessSortColumn::Memory => ProcessSortColumn::Pid,
            ProcessSortColumn::Pid => ProcessSortColumn::Name,
            ProcessSortColumn::Name => ProcessSortColumn::Gpu,
            ProcessSortColumn::Gpu => ProcessSortColumn::Cpu,
        }
    }

    pub fn label(self) -> (r: &'static str)
        ensures
            r@ == sort_column_label(self),
    {
        match self {
            ProcessSortColumn::Cpu => "CPU%",
            ProcessSortColumn::Memory => "MEM%",
            ProcessSortColumn::Pid => "PID",
            ProcessSortColumn::Name => "NAME",
            ProcessSortColumn::Gpu => "GPU",
        }
    }

    pub fn from_name(name: &str) -> (r: Self)
        ensures
            r == sort_column_named(name@),
    {
        if ascii_lower_is(name, "memory") || ascii_lower_is(name, "mem") {
            ProcessSortColumn::Memory
        } else if ascii_lower_is(name, "pid") {
            ProcessSortColumn::Pid
        } else if ascii_lower_is(name, "name") {
            ProcessSortColumn::Name
        } else if ascii_lower_is(name, "gpu") {
            ProcessSortColumn::Gpu
        } else {
            ProcessSortColumn::Cpu
        }
    }
}

/// Whether a configured interface name asks for a particular interface
/// (it is not empty and not `auto` in any ASCII case).
pub open spec fn wants_interface(name: Seq<char>) -> bool {
    name.len() > 0 && ascii_lower(name) != ascii_lower("auto"@)
}

/// Position of the first name equal to `want`, or -1.
pub open spec fn first_named(names: Seq<String>, want: Seq<char>) -> int
    decreases names.len(),
{
    if names.len() == 0 {
        -1
    } else if names[0]@ == want {
        0
    } else {
        let r = first_named(names.drop_first(), want);
        if r < 0 {
            -1
        } else {
            r + 1
        }
    }
}

/// The navigation and display state of the interface: everything the key
/// handler reads and changes, and the display options taken from the config.
pub struct AppState {
    pub current_tab: Tab,
    pub process_sort: ProcessSortColumn,
    pub process_sort_ascending: bool,
    pub process_filter: String,
    pub process_filter_editing: bool,
    pub process_selected_index: usize,
    pub process_scroll_offset: usize,
    pub process_tree_view: bool,
    pub show_help: bool,
    pub selected_network_interface: usize,
    pub interface_resolved: bool,
    pub default_interface: String,
    pub graph_time_window_secs: u64,
    pub theme: Theme,
    pub refresh_rate_ms: u64,
    pub fahrenheit: bool,
    pub show_gpu_column: bool,
    pub show_battery: bool,
    pub show_thermal: bool,
    pub show_disk: bool,
}

/// The graph window after one zoom step: in goes 300 -> 60 -> 30, out goes
/// 30 -> 60 -> 300; any other window jumps to the end of the range.
pub open spec fn zoomed_window(secs: u64, zoom_in: bool) -> u64 {
    if zoom_in {
        if secs == 300 {
            60
        } else {
            30
        }
    } else {
        if secs == 30 {
            60
        } else {
            300
        }
    }
}

/// The history length kept for a graph window: the window in seconds, at least 60.
pub open spec fn history_len_for(secs: u64) -> usize {
    if (secs as usize) < 60 {
        60
    } else {
        secs as usize
    }
}

impl AppState {
    /// The initial state for a resolved configuration.
    pub fn new(cfg: &ResolvedConfig) -> (s: Self)
        ensures
            s.current_tab == tab_named(cfg.default_tab@),
            s.process_sort == sort_column_named(cfg.default_sort@),
            !s.process_sort_ascending,
            s.process_filter@ == Seq::<char>::empty(),
            !s.process_filter_editing,
            s.process_selected_index == 0,
            s.process_scroll_offset == 0,
            !s.process_tree_view,
            !s.show_help,
            s.selected_network_interface == 0,
            !s.interface_resolved,
            s.default_interface@ == cfg.default_interface@,
            s.graph_time_window_secs == cfg.graph_time_window_secs,
            s.theme.name@ == theme_key(cfg.theme_name@),
            theme_colors(s.theme) == palette(theme_key(cfg.theme_name@)),
            s.refresh_rate_ms == cfg.refresh_rate_ms,
            s.fahrenheit == cfg.fahrenheit,
            s.show_gpu_column == cfg.show_gpu_column,
            s.show_battery == cfg.show_battery,
            s.show_thermal == cfg.show_thermal,
            s.show_disk == cfg.show_disk,
    {
        AppState {
            current_tab: Tab::from_name(cfg.default_tab.as_str()),
            process_sort: ProcessSortColumn::from_name(cfg.default_sort.as_str()),
            process_sort_ascending: false,
            process_filter: String::new(),
            process_filter_editing: false,
            process_selected_index: 0,
            process_scroll_offset: 0,
            process_tree_view: false,
            show_help: false,
            selected_network_interface: 0,
            interface_resolved: false,
            default_interface: cfg.default_interface.clone(),
            graph_time_window_secs: cfg.graph_time_window_secs,
            theme: Theme::by_name(cfg.theme_name.as_str()),
            refresh_rate_ms: cfg.refresh_rate_ms,
            fahrenheit: cfg.fahrenheit,
            show_gpu_column: cfg.show_gpu_column,
            show_battery: cfg.show_battery,
            show_thermal: cfg.show_thermal,
            show_disk: cfg.show_disk,
        }
    }

    /// The length of the history buffers created for this state's graph
    /// window: the window in seconds, at least 60.
    pub fn history_capacity(&self) -> (r: usize)
        ensures
            r == history_len_for(self.graph_time_window_secs),
    {
        let secs = self.graph_time_window_secs as usize;
        if secs < 60 {
            60
        } else {
            secs
        }
    }

    /// Zooms the graph window in or out and returns the new history length
    /// (the new window in seconds); every history buffer is to be resized to it.
    pub fn cycle_graph_window(&mut self, zoom_in: bool) -> (cap: usize)
        ensures
            final(self).graph_time_window_secs == zoomed_window(
                old(self).graph_time_window_secs,
                zoom_in,
            ),
            cap == final(self).graph_time_window_secs,
            *final(self) == (AppState {
                graph_time_window_secs: final(self).graph_time_window_secs,
                ..*old(self)
            }),
    {
        let w = self.graph_time_window_secs;
        let new_window: u64 = if zoom_in {
            if w == 300 {
                60
            } else {
                30
            }
        } else {
            if w == 30 {
                60
            } else {
                300
            }
        };
        self.graph_time_window_secs = new_window;
        new_window as usize
    }

    /// Moves to the next tab, wrapping after the last.
    pub fn next_tab(&mut self)
        ensures
            *final(self) == (AppState {
                current_tab: tab_at(tab_position(old(self).current_tab) + 1),
                ..*old(self)
            }),
    {
        self.current_tab = Tab::from_index(self.current_tab.index() + 1);
    }

    /// Moves to the previous tab, wrapping before the first.
    pub fn prev_tab(&mut self)
        ensures
            *final(self) == (AppState {
                current_tab: tab_at(
                    ((tab_position(old(self).current_tab) + TAB_COUNT - 1) % (TAB_COUNT as int)) as nat,
                ),
                ..*old(self)
            }),
    {
        let idx = self.current_tab.index();
        let n = TAB_COUNT;
        self.current_tab = Tab::from_index((idx + n - 1) % n);
    }

    /// Applies the configured default interface once, when the first
    /// non-empty interface list arrives: unless the setting is empty or
    /// `auto` (any ASCII case), the first interface with that exact name is
    /// selected; the setting is then marked as applied.
    pub fn resolve_interface(&mut self, names: &Vec<String>)
        ensures
            old(self).interface_resolved || names@.len() == 0 ==> *final(self) == *old(self),
            !old(self).interface_resolved && names@.len() > 0 ==> *final(self) == (AppState {
                interface_resolved: true,
                selected_network_interface: if wants_interface(old(self).default_interface@)
                    && first_named(names@, old(self).default_interface@) >= 0 {
                    first_named(names@, old(self).default_interface@) as usize
                } else {
                    old(self).selected_network_interface
                },
                ..*old(self)
            }),
    {
        if self.interface_resolved || names.len() == 0 {
            return;
        }
        let want = self.default_interface.as_str();
        if want.unicode_len() != 0 && !eq_ignore_ascii_case(want, "auto") {
            let mut i: usize = 0;
            assert(names@.skip(0) =~= names@);
            while i < names.len() && !(names[i] == self.default_interface)
                invariant
                    i <= names@.len(),
                    forall|k: int| 0 <= k < i ==> names@[k]@ != self.default_interface@,
                    first_named(names@, self.default_interface@) == first_named(
                        names@.skip(i as int),
                        self.default_interface@,
                    ) + (if first_named(names@.skip(i as int), self.default_interface@) >= 0 {
                        i as int
                    } else {
                        0
                    }),
                decreases names@.len() - i,
            {
                assert(names@.skip(i as int).drop_first() =~= names@.skip(i + 1));
                i = i + 1;
            }
            if i < names.len() {
                self.selected_network_interface = i;
            }
        }
        self.interface_resolved = true;
    }

    /// The interface whose figures are shown: the selected one, limited to
    /// the last of `count` interfaces.
    pub fn active_interface(&self, count: usize) -> (r: usize)
        ensures
            r == (if self.selected_network_interface < count {
                self.selected_network_interface as int
            } else if count > 0 {
                count - 1
            } else {
                0
            }),
    {
        let last = if count > 0 {
            count - 1
        } else {
            0
        };
        if self.selected_network_interface < last {
            self.selected_network_interface
        } else {
            last
        }
    }
}

/// `Tab::from_index` undoes `Tab::index`.
pub proof fn law_tab_index_roundtrip(t: Tab)
    ensures
        tab_at(tab_position(t)) == t,
        tab_position(tab_at(tab_position(t))) == tab_position(t),
{
}

/// Moving to the previous tab undoes moving to the next one, and the other
/// way round.
pub proof fn law_prev_undoes_next(t: Tab)
    ensures
        tab_at(((tab_position(tab_at(tab_position(t) + 1)) + TAB_COUNT - 1) % (TAB_COUNT as int)) as nat) == t,
        tab_at(tab_position(tab_at(((tab_position(t) + TAB_COUNT - 1) % (TAB_COUNT as int)) as nat)) + 1) == t,
{
}

/// Nine steps forward through the tabs come back to the start.
pub proof fn law_tab_cycle_length(t: Tab)
    ensures
        tab_at(tab_position(t) + 9) == t,
        forall|k: nat| 0 < k < 9 ==> #[trigger] tab_at(tab_position(t) + k) != t,
{
}

/// The tab `next_tab` moves to from `t`.
pub open spec fn tab_after(t: Tab) -> Tab {
    tab_at(tab_position(t) + 1)
}

/// The tab `prev_tab` moves to from `t`.
pub open spec fn tab_before(t: Tab) -> Tab {
    tab_at(((tab_position(t) + TAB_COUNT - 1) % (TAB_COUNT as int)) as nat)
}

/// The tab reached from `t` after `k` calls of `next_tab` (`forward`) or of
/// `prev_tab`.
pub open spec fn tab_steps(t: Tab, k: nat, forward: bool) -> Tab
    decreases k,
{
    if k == 0 {
        t
    } else {
        let u = tab_steps(t, (k - 1) as nat, forward);
        if forward {
            tab_after(u)
        } else {
            tab_before(u)
        }
    }
}

/// One step forward from the tab at any position `n` reaches the tab at
/// position `n + 1`.
pub proof fn law_next_follows_position(n: nat)
    ensures
        tab_after(tab_at(n)) == tab_at(n + 1),
{
}

proof fn lemma_position_of_tab_at(n: nat)
    ensures
        tab_position(tab_at(n)) == n % 9,
{
}

proof fn lemma_steps_are_positions(t: Tab, k: nat)
    ensures
        tab_steps(t, k, true) == tab_at(tab_position(t) + k),
        tab_steps(t, k, false) == tab_at(tab_position(t) + 8 * k),
    decreases k,
{
    if k > 0 {
        lemma_steps_are_positions(t, (k - 1) as nat);
        let p = tab_position(t);
        let a: nat = (p + (k - 1)) as nat;
        let b: nat = (p + 8 * (k - 1)) as nat;
        lemma_position_of_tab_at(a);
        lemma_position_of_tab_at(b);
        vstd::arithmetic::div_mod::lemma_add_mod_noop(a as int, 1, 9);
        vstd::arithmetic::div_mod::lemma_add_mod_noop(b as int, 8, 9);
        vstd::arithmetic::div_mod::lemma_mod_twice(a as int + 1, 9);
        vstd::arithmetic::div_mod::lemma_mod_twice(b as int + 8, 9);
        assert(tab_at((a % 9 + 1) as nat) == tab_at(a + 1));
        assert(tab_at(((b % 9 + 8) % 9) as nat) == tab_at(b + 8));
    }
}

proof fn lemma_tab_at_shift(t: Tab, m: nat)
    ensures
        tab_at(tab_position(t) + m) == t <==> m % 9 == 0,
{
    let p = tab_position(t);
    lemma_position_of_tab_at(p + m);
    vstd::arithmetic::div_mod::lemma_add_mod_noop(p as int, m as int, 9);
    vstd::arithmetic::div_mod::lemma_small_mod(p, 9);
    if m % 9 == 0 {
        assert(tab_at(p + m) == tab_at(p));
    }
    if tab_at(p + m) == t {
        assert((p + m) % 9 == p);
        assert((p + m % 9) % 9 == p);
    }
}

proof fn lemma_fewer_steps_move(t: Tab, k: nat)
    requires
        0 < k < 9,
    ensures
        tab_steps(t, k, true) != t,
        tab_steps(t, k, false) != t,
{
    lemma_steps_are_positions(t, k);
    lemma_tab_at_shift(t, k);
    lemma_tab_at_shift(t, 8 * k);
    vstd::arithmetic::div_mod::lemma_fundamental_div_mod_converse(k as int, 9, 0, k as int);
    vstd::arithmetic::div_mod::lemma_fundamental_div_mod_converse(
        (8 * k) as int,
        9,
        k - 1,
        9 - k,
    );
}

/// Nine calls of `next_tab`, or nine of `prev_tab`, come back to the tab
/// they started from, and no fewer calls do.
pub proof fn law_nine_tab_steps(t: Tab)
    ensures
        tab_steps(t, 9, true) == t,
        tab_steps(t, 9, false) == t,
        forall|k: nat| 0 < k < 9 ==> #[trigger] tab_steps(t, k, true) != t,
        forall|k: nat| 0 < k < 9 ==> #[trigger] tab_steps(t, k, false) != t,
{
    lemma_steps_are_positions(t, 9);
    lemma_tab_at_shift(t, 9);
    lemma_tab_at_shift(t, 72);
    assert forall|k: nat| 0 < k < 9 implies #[trigger] tab_steps(t, k, true) != t by {
        lemma_fewer_steps_move(t, k);
    }
    assert forall|k: nat| 0 < k < 9 implies #[trigger] tab_steps(t, k, false) != t by {
        lemma_fewer_steps_move(t, k);
    }
}

/// A tab's label, used as a configured name, selects that tab.
pub proof fn law_tab_label_names_tab(t: Tab)
    ensures
        tab_named(tab_label(t)) == t,
{
    reveal_strlit("Dashboard");
    reveal_strlit("CPU");
    reveal_strlit("GPU");
    reveal_strlit("Memory");
    reveal_strlit("Disk");
    reveal_strlit("Network");
    reveal_strlit("Processes");
    reveal_strlit("Battery");
    reveal_strlit("Thermal");
    reveal_strlit("dashboard");
    reveal_strlit("cpu");
    reveal_strlit("gpu");
    reveal_strlit("memory");
    reveal_strlit("mem");
    reveal_strlit("disk");
    reveal_strlit("network");
    reveal_strlit("net");
    reveal_strlit("processes");
    reveal_strlit("process");
    reveal_strlit("proc");
    reveal_strlit("battery");
    reveal_strlit("thermal");
    let l = ascii_lower(tab_label(t));
    match t {
        Tab::Dashboard => {
            assert(l =~= "dashboard"@);
            assert(l.len() == 9);
            assert(l != "cpu"@ && l != "gpu"@ && l != "memory"@ && l != "mem"@ && l != "disk"@);
            assert(l != "network"@ && l != "net"@ && l != "processes"@ && l != "process"@);
            assert(l != "proc"@ && l != "battery"@ && l != "thermal"@);
            assert(l[0] != "processes"@[0]);
        },
        Tab::Cpu => assert(l =~= "cpu"@),
        Tab::Gpu => {
            assert(l =~= "gpu"@);
            assert(l[0] != "cpu"@[0]);
        },
        Tab::Memory => assert(l =~= "memory"@),
        Tab::Disk => assert(l =~= "disk"@),
        Tab::Network => assert(l =~= "network"@),
        Tab::Processes => assert(l =~= "processes"@),
        Tab::Battery => {
            assert(l =~= "battery"@);
            assert(l[0] != "network"@[0]);
            assert(l[0] != "process"@[0]);
            assert(l[0] != "thermal"@[0]);
        },
        Tab::Thermal => {
            assert(l =~= "thermal"@);
            assert(l[0] != "network"@[0]);
            assert(l[0] != "process"@[0]);
            assert(l[0] != "battery"@[0]);
        },
    }
}

/// Five steps through the sort columns come back to the start, and the
/// five columns met on the way are all different: each column is visited once.
pub proof fn law_sort_column_cycle(c: ProcessSortColumn)
    ensures
        ({
            let c1 = sort_column_after(c);
            let c2 = sort_column_after(c1);
            let c3 = sort_column_after(c2);
            let c4 = sort_column_after(c3);
            &&& sort_column_after(c4) == c
            &&& c != c1 && c != c2 && c != c3 && c != c4
            &&& c1 != c2 && c1 != c3 && c1 != c4
            &&& c2 != c3 && c2 != c4
            &&& c3 != c4
        }),
{
}

/// Zooming keeps the graph window at 30 s, 60 s or 5 min, and zooming in
/// then out (or out then in) from 60 s or 5 min (or 30 s or 60 s) returns
/// to the same window.
pub proof fn law_zoom_window(secs: u64)
    ensures
        zoomed_window(secs, true) == 30 || zoomed_window(secs, true) == 60,
        zoomed_window(secs, false) == 60 || zoomed_window(secs, false) == 300,
        secs == 60 || secs == 300 ==> zoomed_window(zoomed_window(secs, true), false) == secs,
        secs == 30 || secs == 60 ==> zoomed_window(zoomed_window(secs, false), true) == secs,
{
}

/// Each column is selected by its own name in any ASCII case (`cpu`,
/// `memory` or `mem`, `pid`, `name`, `gpu`).
pub proof fn law_sort_column_names(name: Seq<char>)
    ensures
        ascii_lower(name) == "cpu"@ ==> sort_column_named(name) == ProcessSortColumn::Cpu,
        ascii_lower(name) == "memory"@ ==> sort_column_named(name) == ProcessSortColumn::Memory,
        ascii_lower(name) == "mem"@ ==> sort_column_named(name) == ProcessSortColumn::Memory,
        ascii_lower(name) == "pid"@ ==> sort_column_named(name) == ProcessSortColumn::Pid,
        ascii_lower(name) == "name"@ ==> sort_column_named(name) == ProcessSortColumn::Name,
        ascii_lower(name) == "gpu"@ ==> sort_column_named(name) == ProcessSortColumn::Gpu,
{
    reveal_strlit("cpu");
    reveal_strlit("memory");
    reveal_strlit("mem");
    reveal_strlit("pid");
    reveal_strlit("name");
    reveal_strlit("gpu");
    let l = ascii_lower(name);
    if l == "cpu"@ {
        assert(l[0] != "memory"@[0] && l[0] != "pid"@[0] && l[0] != "name"@[0] && l[0] != "gpu"@[0]);
    }
    if l == "pid"@ {
        assert(l[0] != "memory"@[0]);
    }
    if l == "name"@ {
        assert(l[0] != "memory"@[0] && l[0] != "pid"@[0]);
    }
    if l == "gpu"@ {
        assert(l[0] != "memory"@[0] && l[0] != "pid"@[0] && l[0] != "name"@[0]);
    }
}

/// Pressing `s` walks the columns in the order of the table's headers:
/// CPU% → MEM% → PID → NAME → GPU → CPU%.
pub proof fn law_sort_column_successors(c: ProcessSortColumn)
    ensures
        sort_column_label(c) == "CPU%"@ ==> sort_column_label(sort_column_after(c)) == "MEM%"@,
        sort_column_label(c) == "MEM%"@ ==> sort_column_label(sort_column_after(c)) == "PID"@,
        sort_column_label(c) == "PID"@ ==> sort_column_label(sort_column_after(c)) == "NAME"@,
        sort_column_label(c) == "NAME"@ ==> sort_column_label(sort_column_after(c)) == "GPU"@,
        sort_column_label(c) == "GPU"@ ==> sort_column_label(sort_column_after(c)) == "CPU%"@,
{
    reveal_strlit("CPU%");
    reveal_strlit("MEM%");
    reveal_strlit("PID");
    reveal_strlit("NAME");
    reveal_strlit("GPU");
    assert("CPU%"@[0] != "MEM%"@[0]);
    assert("CPU%"@[0] != "PID"@[0]);
    assert("CPU%"@[0] != "NAME"@[0]);
    assert("CPU%"@[0] != "GPU"@[0]);
    assert("MEM%"@[0] != "PID"@[0]);
    assert("MEM%"@[0] != "NAME"@[0]);
    assert("MEM%"@[0] != "GPU"@[0]);
    assert("PID"@[0] != "NAME"@[0]);
    assert("PID"@[0] != "GPU"@[0]);
    assert("NAME"@[0] != "GPU"@[0]);
}

} // verus!
