use vstd::prelude::*;

use vstd::string::StringSliceAdditionalSpecFns;

use std::time::Duration;

use crate::collector::{BatteryState, FanInfo, GpuProcessType, ProcessState};
use crate::state::{tab_label, AppState, Tab};
use crate::text::{decimal, push_char, push_decimal, push_str};
use crate::util::{clock_text, format_duration, whole_seconds};

verus! {

/// `s` cut to at most `max` characters: when longer, its first `max - 1`
/// characters followed by an ellipsis.
pub open spec fn truncated(s: Seq<char>, max: nat) -> Seq<char> {
    if s.len() <= max {
        s
    } else {
        s.take(max - 1).push('…')
    }
}

/// Cuts a label to at most `max` characters, marking the cut with `…`.
pub fn truncate(s: &str, max: usize) -> (r: String)
    requires
        max >= 1 || s@.len() == 0,
    ensures
        r@ == truncated(s@, max as nat),
{
    let n = s.unicode_len();
    let mut out = String::new();
    if n <= max {
        push_str(&mut out, s);
        assert(out@ =~= s@);
        return out;
    }
    let mut i: usize = 0;
    while i < max - 1
        invariant
            max >= 1,
            max - 1 < n,
            n == s@.len(),
            i <= max - 1,
            out@ == s@.take(i as int),
        decreases max - 1 - i,
    {
        push_char(&mut out, s.get_char(i));
        assert(out@ =~= s@.take(i + 1));
        i = i + 1;
    }
    push_char(&mut out, '…');
    out
}

/// A mount point cut to at most `max` bytes by keeping its end: when longer,
/// `…` followed by its last `max - 1` bytes.
pub fn truncate_front(s: &str, max: usize) -> (r: String)
    requires
        s.spec_bytes().len() <= usize::MAX,
        s.spec_bytes().len() <= max || (max >= 1 && vstd::utf8::is_char_boundary(
            s.spec_bytes(),
            s.spec_bytes().len() - (max - 1),
        )),
    ensures
        s.spec_bytes().len() <= max ==> r@ == s@,
        s.spec_bytes().len() > max ==> r@.len() >= 1 && r@[0] == '…' && vstd::utf8::encode_utf8(
            r@.drop_first(),
        ) == s.spec_bytes().subrange(
            s.spec_bytes().len() - (max - 1),
            s.spec_bytes().len() as int,
        ),
{
    let n = s.len();
    let mut out = String::new();
    if n <= max {
        push_str(&mut out, s);
        assert(out@ =~= s@);
        return out;
    }
    let (_, tail) = s.split_at(n - (max - 1));
    push_char(&mut out, '…');
    push_str(&mut out, tail);
    assert(out@.drop_first() =~= tail@);
    out
}

/// `filled` full cells followed by empty cells up to `width` in all.
pub open spec fn bar_text(filled: nat, width: nat) -> Seq<char> {
    Seq::new(filled, |i: int| '█') + Seq::new(
        if width > filled {
            (width - filled) as nat
        } else {
            0
        },
        |i: int| '░',
    )
}

/// A gauge of `width` cells of which the first `filled` are full.
pub fn bar_cells(filled: usize, width: usize) -> (r: String)
    ensures
        r@ == bar_text(filled as nat, width as nat),
{
    let empty = if width > filled {
        width - filled
    } else {
        0
    };
    let mut s = String::new();
    let mut i: usize = 0;
    while i < filled
        invariant
            i <= filled,
            s@ == Seq::new(i as nat, |j: int| '█'),
        decreases filled - i,
    {
        push_char(&mut s, '█');
        assert(s@ =~= Seq::new((i + 1) as nat, |j: int| '█'));
        i = i + 1;
    }
    let mut k: usize = 0;
    while k < empty
        invariant
            k <= empty,
            s@ == Seq::new(filled as nat, |j: int| '█') + Seq::new(k as nat, |j: int| '░'),
        decreases empty - k,
    {
        push_char(&mut s, '░');
        assert(s@ =~= Seq::new(filled as nat, |j: int| '█') + Seq::new((k + 1) as nat, |j: int| '░'));
        k = k + 1;
    }
    s
}


/// The caption of the tab at `position` of the tab bar: ` [n] Label `,
/// where `n` counts from 1.
pub open spec fn tab_caption_text(position: nat, tab: Tab) -> Seq<char> {
    " ["@ + decimal(position + 1) + "] "@ + tab_label(tab) + " "@
}

/// The caption of one tab of the tab bar (see [`tab_caption_text`]).
pub fn tab_caption(position: usize, tab: Tab) -> (r: String)
    ensures
        r@ == tab_caption_text(position as nat, tab),
{
    let mut out = String::new();
    push_str(&mut out, " [");
    push_decimal(&mut out, position as u128 + 1);
    push_str(&mut out, "] ");
    push_str(&mut out, tab.label());
    push_str(&mut out, " ");
    proof {
        reveal_strlit(" [");
        reveal_strlit("] ");
        reveal_strlit(" ");
    }
    assert(out@ =~= tab_caption_text(position as nat, tab));
    out
}

/// The status bar: refresh period, graph window, theme and the two keys
/// every screen offers.
pub open spec fn status_text(rate_ms: nat, window_secs: nat, theme: Seq<char>) -> Seq<char> {
    " rate "@ + decimal(rate_ms) + "ms · graph "@ + decimal(window_secs) + "s · theme "@ + theme
        + " · [?] help · [q] quit"@
}

/// The status bar of the interface state (see [`status_text`]).
pub fn status_line(state: &AppState) -> (r: String)
    ensures
        r@ == status_text(
            state.refresh_rate_ms as nat,
            state.graph_time_window_secs as nat,
            state.theme.name@,
        ),
{
    let mut out = String::new();
    push_str(&mut out, " rate ");
    push_decimal(&mut out, state.refresh_rate_ms as u128);
    push_str(&mut out, "ms · graph ");
    push_decimal(&mut out, state.graph_time_window_secs as u128);
    push_str(&mut out, "s · theme ");
    push_str(&mut out, state.theme.name);
    push_str(&mut out, " · [?] help · [q] quit");
    proof {
        reveal_strlit(" rate ");
        reveal_strlit("ms · graph ");
        reveal_strlit("s · theme ");
        reveal_strlit(" · [?] help · [q] quit");
    }
    assert(out@ =~= status_text(
        state.refresh_rate_ms as nat,
        state.graph_time_window_secs as nat,
        state.theme.name@,
    ));
    out
}

/// The symbol shown beside a battery state.
pub open spec fn battery_icon_text(s: BatteryState) -> Seq<char> {
    match s {
        BatteryState::Charging => "⚡"@,
        BatteryState::Discharging => "▼"@,
        BatteryState::Full => "✓"@,
        BatteryState::Empty => "✗"@,
        BatteryState::Unknown => "?"@,
    }
}

/// The symbol shown beside a battery state.
pub fn battery_icon(s: BatteryState) -> (r: &'static str)
    ensures
        r@ == battery_icon_text(s),
{
    match s {
        BatteryState::Charging => "⚡",
        BatteryState::Discharging => "▼",
        BatteryState::Full => "✓",
        BatteryState::Empty => "✗",
        BatteryState::Unknown => "?",
    }
}

/// `prefix` followed by the clock rendering of `time` when there is one,
/// else `prefix` followed by `--`.
pub open spec fn eta_text(prefix: Seq<char>, time: Option<Duration>) -> Seq<char> {
    match time {
        Some(d) => prefix + clock_text(whole_seconds(d) as nat),
        None => prefix + "--"@,
    }
}

/// The time estimate of the dashboard's battery panel: time to full while
/// charging, time to empty while discharging.
pub open spec fn eta_brief_text(
    s: BatteryState,
    to_full: Option<Duration>,
    to_empty: Option<Duration>,
) -> Seq<char> {
    match s {
        BatteryState::Charging => eta_text("ETA "@, to_full),
        BatteryState::Discharging => eta_text("ETA "@, to_empty),
        BatteryState::Full => "Full"@,
        _ => "ETA --"@,
    }
}

/// The time estimate of the battery tab.
pub open spec fn eta_detail_text(
    s: BatteryState,
    to_full: Option<Duration>,
    to_empty: Option<Duration>,
) -> Seq<char> {
    match s {
        BatteryState::Charging => eta_text("ETA full: "@, to_full),
        BatteryState::Discharging => eta_text("ETA empty: "@, to_empty),
        BatteryState::Full => "Fully charged"@,
        _ => "ETA: --"@,
    }
}

fn eta_line(prefix: &str, time: Option<Duration>) -> (r: String)
    ensures
        r@ == eta_text(prefix@, time),
{
    let mut out = String::new();
    push_str(&mut out, prefix);
    match time {
        Some(d) => {
            let clock = format_duration(d);
            push_str(&mut out, clock.as_str());
        },
        None => {
            push_str(&mut out, "--");
        },
    }
    proof {
        reveal_strlit("--");
    }
    assert(out@ =~= eta_text(prefix@, time));
    out
}

/// The time estimate of the dashboard's battery panel (see [`eta_brief_text`]).
pub fn battery_eta_brief(s: BatteryState, to_full: Option<Duration>, to_empty: Option<Duration>) -> (r:
    String)
    ensures
        r@ == eta_brief_text(s, to_full, to_empty),
{
    match s {
        BatteryState::Charging => eta_line("ETA ", to_full),
        BatteryState::Discharging => eta_line("ETA ", to_empty),
        BatteryState::Full => "Full".to_string(),
        _ => "ETA --".to_string(),
    }
}

/// The time estimate of the battery tab (see [`eta_detail_text`]).
pub fn battery_eta_detail(s: BatteryState, to_full: Option<Duration>, to_empty: Option<Duration>) -> (r:
    String)
    ensures
        r@ == eta_detail_text(s, to_full, to_empty),
{
    match s {
        BatteryState::Charging => eta_line("ETA full: ", to_full),
        BatteryState::Discharging => eta_line("ETA empty: ", to_empty),
        BatteryState::Full => "Fully charged".to_string(),
        _ => "ETA: --".to_string(),
    }
}

/// The word shown for how a process uses the GPU.
pub open spec fn gpu_process_type_text(t: GpuProcessType) -> Seq<char> {
    match t {
        GpuProcessType::Graphics => "Graphics"@,
        GpuProcessType::Compute => "Compute"@,
        GpuProcessType::Both => "Both"@,
    }
}

/// The word shown for how a process uses the GPU.
pub fn gpu_process_type_label(t: GpuProcessType) -> (r: &'static str)
    ensures
        r@ == gpu_process_type_text(t),
{
    match t {
        GpuProcessType::Graphics => "Graphics",
        GpuProcessType::Compute => "Compute",
        GpuProcessType::Both => "Both",
    }
}

/// The row of a table that is highlighted for a selection: the selection,
/// kept on the last row; none for an empty table.
pub fn highlighted_row(selected: usize, rows: usize) -> (r: Option<usize>)
    ensures
        rows == 0 ==> r is None,
        rows > 0 ==> r == Some(if selected < rows {
            selected
        } else {
            (rows - 1) as usize
        }),
{
    if rows == 0 {
        None
    } else if selected < rows {
        Some(selected)
    } else {
        Some(rows - 1)
    }
}

/// How many processes are running, and how many sleep or idle.
pub open spec fn running_count(states: Seq<ProcessState>) -> nat {
    states.filter(|s: ProcessState| s == ProcessState::Run).len()
}

/// How many processes sleep or idle.
pub open spec fn sleeping_count(states: Seq<ProcessState>) -> nat {
    states.filter(|s: ProcessState| s == ProcessState::Sleep || s == ProcessState::Idle).len()
}

/// The title of the process tab: how many processes there are, how many
/// run and how many sleep (idle ones included).
pub open spec fn process_title_text(states: Seq<ProcessState>) -> Seq<char> {
    "Processes · Total "@ + decimal(states.len()) + " · Running "@ + decimal(
        running_count(states),
    ) + " · Sleeping "@ + decimal(sleeping_count(states))
}

/// The title of the process tab (see [`process_title_text`]).
pub fn process_title(states: &Vec<ProcessState>) -> (r: String)
    ensures
        r@ == process_title_text(states@),
{
    let n = states.len();
    let mut running: usize = 0;
    let mut sleeping: usize = 0;
    let mut k: usize = 0;
    proof {
        reveal_with_fuel(Seq::<_>::filter, 1);
        assert(states@.take(0) =~= Seq::<ProcessState>::empty());
    }
    while k < n
        invariant
            k <= n == states@.len(),
            running == running_count(states@.take(k as int)),
            sleeping == sleeping_count(states@.take(k as int)),
            running <= k,
            sleeping <= k,
        decreases n - k,
    {
        let st = states[k];
        proof {
            reveal_with_fuel(Seq::<_>::filter, 1);
            assert(states@.take(k + 1).drop_last() =~= states@.take(k as int));
            assert(states@.take(k + 1).last() == st);
        }
        if st == ProcessState::Run {
            running = running + 1;
        }
        if st == ProcessState::Sleep || st == ProcessState::Idle {
            sleeping = sleeping + 1;
        }
        k = k + 1;
    }
    assert(states@.take(n as int) =~= states@);
    let mut out = String::new();
    push_str(&mut out, "Processes · Total ");
    push_decimal(&mut out, n as u128);
    push_str(&mut out, " · Running ");
    push_decimal(&mut out, running as u128);
    push_str(&mut out, " · Sleeping ");
    push_decimal(&mut out, sleeping as u128);
    proof {
        reveal_strlit("Processes · Total ");
        reveal_strlit(" · Running ");
        reveal_strlit(" · Sleeping ");
    }
    assert(out@ =~= process_title_text(states@));
    out
}

/// The filter box of the process tab: the filter with a cursor while it is
/// edited, a hint when it is empty, the filter otherwise, in brackets.
pub open spec fn filter_caption_text(filter: Seq<char>, editing: bool) -> Seq<char> {
    seq!['['] + (if editing {
        filter.push('_')
    } else if filter.len() == 0 {
        "(press / to filter)"@
    } else {
        filter
    }) + seq![']']
}

/// The filter box of the process tab (see [`filter_caption_text`]).
pub fn filter_caption(filter: &str, editing: bool) -> (r: String)
    ensures
        r@ == filter_caption_text(filter@, editing),
{
    let mut out = String::new();
    push_char(&mut out, '[');
    if editing {
        push_str(&mut out, filter);
        push_char(&mut out, '_');
    } else if filter.unicode_len() == 0 {
        push_str(&mut out, "(press / to filter)");
    } else {
        push_str(&mut out, filter);
    }
    push_char(&mut out, ']');
    proof {
        reveal_strlit("(press / to filter)");
    }
    assert(out@ =~= filter_caption_text(filter@, editing));
    out
}

/// One fan in the thermal panel's summary: its name cut to 8 characters and
/// its speed.
pub open spec fn fan_item_text(f: FanInfo) -> Seq<char> {
    truncated(f.name@, 8) + seq![' '] + decimal(f.rpm as nat) + "rpm"@
}

/// The fans of the thermal panel on one line, two spaces apart.
pub open spec fn fan_summary_text(fans: Seq<FanInfo>) -> Seq<char>
    decreases fans.len(),
{
    if fans.len() == 0 {
        Seq::empty()
    } else if fans.len() == 1 {
        fan_item_text(fans[0])
    } else {
        fan_summary_text(fans.drop_last()) + "  "@ + fan_item_text(fans.last())
    }
}

/// The fans of the thermal panel on one line (see [`fan_summary_text`]).
pub fn fan_summary(fans: &Vec<FanInfo>) -> (r: String)
    ensures
        r@ == fan_summary_text(fans@),
{
    let mut out = String::new();
    let mut k: usize = 0;
    proof {
        reveal_strlit("  ");
        reveal_strlit("rpm");
    }
    assert(fans@.take(0) =~= Seq::<FanInfo>::empty());
    while k < fans.len()
        invariant
            k <= fans@.len(),
            out@ == fan_summary_text(fans@.take(k as int)),
        decreases fans@.len() - k,
    {
        let ghost before = fans@.take(k as int);
        let ghost after = fans@.take(k + 1);
        assert(after.drop_last() =~= before);
        if k > 0 {
            push_str(&mut out, "  ");
        }
        let f = &fans[k];
        let name = truncate(f.name.as_str(), 8);
        push_str(&mut out, name.as_str());
        push_char(&mut out, ' ');
        push_decimal(&mut out, f.rpm as u128);
        push_str(&mut out, "rpm");
        proof {
            reveal_strlit("  ");
            reveal_strlit("rpm");
            if k == 0 {
                assert(out@ =~= fan_item_text(after[0]));
            } else {
                assert(out@ =~= fan_summary_text(before) + "  "@ + fan_item_text(after.last()));
            }
        }
        k = k + 1;
    }
    assert(fans@.take(k as int) =~= fans@);
    out
}

/// A panel of the dashboard.
#[derive(Copy, Clone, PartialEq, Eq, Debug, Structural)]
pub enum Panel {
    Cpu,
    Gpu,
    Memory,
    Battery,
    Disk,
    Network,
    Thermal,
    Processes,
}

/// Which part of a dashboard row a panel takes.
#[derive(Copy, Clone, PartialEq, Eq, Debug, Structural)]
pub enum Part {
    Left,
    Right,
    Whole,
}

/// A panel and where it is drawn.
#[derive(Copy, Clone, PartialEq, Eq, Debug, Structural)]
pub struct Placement {
    pub row: usize,
    pub part: Part,
    pub panel: Panel,
}

/// The dashboard's rows (as percentages of its height) and its panels.
pub struct DashboardLayout {
    pub row_percents: Vec<u16>,
    pub panels: Vec<Placement>,
}

/// The panels of the two-column dashboard, which the dashboard settings
/// choose among.
pub open spec fn grid_panels(show_battery: bool, show_disk: bool, show_thermal: bool) -> Seq<
    Placement,
> {
    seq![
        Placement { row: 0, part: Part::Left, panel: Panel::Cpu },
        Placement { row: 0, part: Part::Right, panel: Panel::Gpu },
        Placement { row: 1, part: Part::Left, panel: Panel::Memory },
        Placement {
            row: 1,
            part: Part::Right,
            panel: if show_battery {
                Panel::Battery
            } else {
                Panel::Network
            },
        },
    ] + (if show_disk {
        seq![
            Placement { row: 2, part: Part::Left, panel: Panel::Disk },
            Placement { row: 2, part: Part::Right, panel: Panel::Network },
        ]
    } else {
        seq![
            Placement { row: 2, part: Part::Left, panel: Panel::Network },
            Placement { row: 2, part: Part::Right, panel: Panel::Processes },
        ]
    }) + (if show_thermal {
        seq![
            Placement { row: 3, part: Part::Left, panel: Panel::Thermal },
            Placement { row: 3, part: Part::Right, panel: Panel::Processes },
        ]
    } else {
        seq![Placement { row: 3, part: Part::Whole, panel: Panel::Processes }]
    })
}

/// The panels of the single-column dashboard of a narrow terminal, which
/// the GPU and battery that are present choose among.
pub open spec fn stacked_panels(has_gpu: bool, has_battery: bool) -> Seq<Placement> {
    seq![Placement { row: 0, part: Part::Whole, panel: Panel::Cpu }] + (if has_gpu {
        seq![
            Placement { row: 1, part: Part::Left, panel: Panel::Memory },
            Placement { row: 1, part: Part::Right, panel: Panel::Gpu },
        ]
    } else {
        seq![Placement { row: 1, part: Part::Whole, panel: Panel::Memory }]
    }) + seq![
        Placement { row: 2, part: Part::Left, panel: Panel::Disk },
        Placement {
            row: 2,
            part: Part::Right,
            panel: if has_battery {
                Panel::Battery
            } else {
                Panel::Network
            },
        },
        Placement { row: 3, part: Part::Whole, panel: Panel::Processes },
    ]
}

fn place(row: usize, part: Part, panel: Panel) -> (r: Placement)
    ensures
        r == (Placement { row, part, panel }),
{
    Placement { row, part, panel }
}

/// The dashboard for a terminal `width` columns wide: below 100 columns a
/// single column (rows of 28, 20, 14 and 38 %), otherwise two columns (rows
/// of 30, 18, 17 and 35 %).
pub fn dashboard_layout(
    width: u16,
    show_battery: bool,
    show_disk: bool,
    show_thermal: bool,
    has_gpu: bool,
    has_battery: bool,
) -> (r: DashboardLayout)
    ensures
        width < 100 ==> r.row_percents@ == seq![28u16, 20, 14, 38] && r.panels@ == stacked_panels(
            has_gpu,
            has_battery,
        ),
        width >= 100 ==> r.row_percents@ == seq![30u16, 18, 17, 35] && r.panels@ == grid_panels(
            show_battery,
            show_disk,
            show_thermal,
        ),
{
    let mut rows: Vec<u16> = Vec::new();
    let mut panels: Vec<Placement> = Vec::new();
    if width < 100 {
        rows.push(28);
        rows.push(20);
        rows.push(14);
        rows.push(38);
        panels.push(place(0, Part::Whole, Panel::Cpu));
        if has_gpu {
            panels.push(place(1, Part::Left, Panel::Memory));
            panels.push(place(1, Part::Right, Panel::Gpu));
        } else {
            panels.push(place(1, Part::Whole, Panel::Memory));
        }
        panels.push(place(2, Part::Left, Panel::Disk));
        panels.push(
            place(
                2,
                Part::Right,
                if has_battery {
                    Panel::Battery
                } else {
                    Panel::Network
                },
            ),
        );
        panels.push(place(3, Part::Whole, Panel::Processes));
        assert(rows@ =~= seq![28u16, 20, 14, 38]);
        assert(panels@ =~= stacked_panels(has_gpu, has_battery));
    } else {
        rows.push(30);
        rows.push(18);
        rows.push(17);
        rows.push(35);
        panels.push(place(0, Part::Left, Panel::Cpu));
        panels.push(place(0, Part::Right, Panel::Gpu));
        panels.push(place(1, Part::Left, Panel::Memory));
        panels.push(
            place(
                1,
                Part::Right,
                if show_battery {
                    Panel::Battery
                } else {
                    Panel::Network
                },
            ),
        );
        if show_disk {
            panels.push(place(2, Part::Left, Panel::Disk));
            panels.push(place(2, Part::Right, Panel::Network));
        } else {
            panels.push(place(2, Part::Left, Panel::Network));
            panels.push(place(2, Part::Right, Panel::Processes));
        }
        if show_thermal {
            panels.push(place(3, Part::Left, Panel::Thermal));
            panels.push(place(3, Part::Right, Panel::Processes));
        } else {
            panels.push(place(3, Part::Whole, Panel::Processes));
        }
        assert(rows@ =~= seq![30u16, 18, 17, 35]);
        assert(panels@ =~= grid_panels(show_battery, show_disk, show_thermal));
    }
    DashboardLayout { row_percents: rows, panels }
}

} // verus!
