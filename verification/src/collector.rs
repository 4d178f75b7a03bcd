use vstd::prelude::*;

use crate::parse::{
    digit_run, digits_value, is_ascii_digit, lemma_digit_run_bounds, lemma_digit_run_of_prefix,
    lemma_digits_value_grows,
};
use crate::app::{directed_order, is_stable_sort, lex_order, sort_processes, stable_arrangement, ProcessSortKey};
use crate::state::ProcessSortColumn;
use crate::text::{
    chars_of, contains_chars, contains_seq, decimal, find_chars, occurs_at, push_char, push_decimal, push_signed_decimal,
    push_str, signed_decimal, to_lowercase, unicode_lowercase,
};

pub use crate::util::duration_secs;

verus! {

/// Charging state of the battery.
#[derive(Clone, Copy, Debug, PartialEq, Eq, Structural)]
pub enum BatteryState {
    Charging,
    Discharging,
    Full,
    Empty,
    Unknown,
}

impl Default for BatteryState {
    fn default() -> (r: Self)
        ensures
            r == BatteryState::Unknown,
    {
        BatteryState::Unknown
    }
}

/// The word shown for a battery state.
pub open spec fn battery_state_label(s: BatteryState) -> Seq<char> {
    match s {
        BatteryState::Charging => "Charging"@,
        BatteryState::Discharging => "Discharging"@,
        BatteryState::Full => "Full"@,
        BatteryState::Empty => "Empty"@,
        BatteryState::Unknown => "Unknown"@,
    }
}

impl BatteryState {
    pub fn label(self) -> (r: &'static str)
        ensures
            r@ == battery_state_label(self),
    {
        match self {
            BatteryState::Charging => "Charging",
            BatteryState::Discharging => "Discharging",
            BatteryState::Full => "Full",
            BatteryState::Empty => "Empty",
            BatteryState::Unknown => "Unknown",
        }
    }
}

/// Scheduling state of a process.
#[derive(Clone, Copy, Debug, PartialEq, Eq, Structural)]
pub enum ProcessState {
    Run,
    Sleep,
    Idle,
    Zombie,
    Stop,
    Other,
}

impl Default for ProcessState {
    fn default() -> (r: Self)
        ensures
            r == ProcessState::Other,
    {
        ProcessState::Other
    }
}

/// The short word shown for a process state.
pub open spec fn process_state_label(s: ProcessState) -> Seq<char> {
    match s {
        ProcessState::Run => "Run"@,
        ProcessState::Sleep => "Sleep"@,
        ProcessState::Idle => "Idle"@,
        ProcessState::Zombie => "Zomb"@,
        ProcessState::Stop => "Stop"@,
        ProcessState::Other => "Other"@,
    }
}

impl ProcessState {
    pub fn label(self) -> (r: &'static str)
        ensures
            r@ == process_state_label(self),
    {
        match self {
            ProcessState::Run => "Run",
            ProcessState::Sleep => "Sleep",
            ProcessState::Idle => "Idle",
            ProcessState::Zombie => "Zomb",
            ProcessState::Stop => "Stop",
            ProcessState::Other => "Other",
        }
    }
}

/// RAM and swap figures, in bytes.
#[derive(Clone, Copy, Default, Debug, PartialEq, Eq, Structural)]
pub struct MemorySnapshot {
    pub total: u64,
    pub used: u64,
    pub available: u64,
    pub cached: u64,
    pub buffers: u64,
    pub swap_total: u64,
    pub swap_used: u64,
}

/// How a process uses the GPU.
#[derive(Clone, Copy, Debug, PartialEq, Eq, Structural)]
pub enum GpuProcessType {
    Graphics,
    Compute,
    Both,
}

/// A process that holds GPU memory.
#[derive(Clone, Debug)]
pub struct GpuProcessInfo {
    pub pid: u32,
    pub name: String,
    pub memory_used: u64,
    pub gpu_util: Option<u32>,
    pub process_type: GpuProcessType,
}

/// A fan and its speed in revolutions per minute.
#[derive(Clone, Debug, Default)]
pub struct FanInfo {
    pub name: String,
    pub rpm: u32,
    pub min_rpm: Option<u32>,
    pub max_rpm: Option<u32>,
}

/// Reads thermal zones and fans from sysfs.
pub struct ThermalCollector;

impl ThermalCollector {
    pub fn new() -> (r: Self)
        ensures
            r == ThermalCollector,
    {
        ThermalCollector
    }
}

impl Default for ThermalCollector {
    fn default() -> (r: Self)
        ensures
            r == ThermalCollector,
    {
        ThermalCollector
    }
}

/// A source of one kind of snapshot, polled once per refresh. `collect`
/// gives `None` when nothing could be read this time.
pub trait Collector {
    type Snapshot: Clone;

    fn collect(&mut self) -> Option<Self::Snapshot>;

    fn name(&self) -> &'static str;
}

/// The label of fan `index` of a hardware monitor: the trimmed text of its
/// label file when there is one, else `Fan {index}` for a chip without a
/// name and `{chip} fan{index}` otherwise.
pub open spec fn fan_label_text(label: Option<Seq<char>>, chip: Seq<char>, index: nat) -> Seq<
    char,
> {
    match label {
        Some(l) => l,
        None => if chip.len() == 0 {
            "Fan "@ + decimal(index)
        } else {
            chip + " fan"@ + decimal(index)
        },
    }
}

/// The name shown for a fan (see [`fan_label_text`]).
pub fn fan_label(label: Option<String>, chip: &str, index: u32) -> (r: String)
    ensures
        r@ == fan_label_text(
            match label {
                Some(l) => Some(l@),
                None => None,
            },
            chip@,
            index as nat,
        ),
{
    match label {
        Some(l) => l,
        None => {
            let mut out = String::new();
            if chip.unicode_len() == 0 {
                push_str(&mut out, "Fan ");
            } else {
                push_str(&mut out, chip);
                push_str(&mut out, " fan");
            }
            push_decimal(&mut out, index as u128);
            proof {
                reveal_strlit("Fan ");
                reveal_strlit(" fan");
            }
            assert(out@ =~= fan_label_text(None, chip@, index as nat));
            out
        },
    }
}

/// Whether a directory of `/sys/class/thermal` is a thermal zone: its name
/// starts with `thermal_zone`.
pub fn is_thermal_zone(name: &str) -> (r: bool)
    ensures
        r == (name@.len() >= 12 && name@.take(12) == "thermal_zone"@),
{
    let prefix = "thermal_zone";
    proof {
        reveal_strlit("thermal_zone");
    }
    if name.unicode_len() < 12 {
        return false;
    }
    let mut i: usize = 0;
    while i < 12
        invariant
            i <= 12 <= name@.len(),
            prefix@ == "thermal_zone"@,
            prefix@.len() == 12,
            forall|t: int| 0 <= t < i ==> name@[t] == prefix@[t],
        decreases 12 - i,
    {
        if name.get_char(i) != prefix.get_char(i) {
            assert(name@.take(12)[i as int] != prefix@[i as int]);
            return false;
        }
        i = i + 1;
    }
    assert(name@.take(12) =~= prefix@);
    true
}

/// `p` lists the positions of `names` in ascending code-point order of the
/// names, names that are equal keeping their order (a stable sort).
pub open spec fn is_name_order(names: Seq<Seq<char>>, p: Seq<int>) -> bool {
    &&& p.len() == names.len()
    &&& forall|i: int| 0 <= i < p.len() ==> 0 <= #[trigger] p[i] < names.len()
    &&& forall|i: int, j: int| 0 <= i < j < p.len() ==> p[i] != p[j]
    &&& forall|i: int, j: int|
        0 <= i < j < p.len() ==> lex_order(names[p[i]], names[p[j]]) <= 0
    &&& forall|i: int, j: int|
        0 <= i < j < p.len() && lex_order(names[p[i]], names[p[j]]) == 0 ==> p[i] < p[j]
}

/// The order in which named entries (thermal zones, network interfaces) are
/// listed: by name, as `sort_by` on the names does.
pub fn name_order(names: &Vec<String>) -> (r: Vec<usize>)
    ensures
        is_name_order(names@.map_values(|s: String| s@), r@.map_values(|x: usize| x as int)),
{
    let ghost ns = names@.map_values(|s: String| s@);
    let mut keys: Vec<ProcessSortKey> = Vec::new();
    let mut i: usize = 0;
    while i < names.len()
        invariant
            i <= names@.len(),
            ns == names@.map_values(|s: String| s@),
            keys@.len() == i,
            forall|j: int| 0 <= j < i ==> (#[trigger] keys@[j]).slot == j && keys@[j].name@ == ns[j],
        decreases names@.len() - i,
    {
        keys.push(
            ProcessSortKey {
                slot: i,
                pid: 0,
                cpu_rank: 0,
                memory_rank: 0,
                name: chars_of(names[i].as_str()),
                gpu_memory: 0,
            },
        );
        i = i + 1;
    }
    let ghost input = keys@;
    sort_processes(&mut keys, ProcessSortColumn::Name, true);
    let ghost output = keys@;
    let ghost p = choose|p: Seq<int>| stable_arrangement(p, input, output, ProcessSortColumn::Name, true);
    let mut out: Vec<usize> = Vec::new();
    let mut k: usize = 0;
    while k < keys.len()
        invariant
            k <= keys@.len(),
            keys@ == output,
            stable_arrangement(p, input, output, ProcessSortColumn::Name, true),
            input.len() == names@.len(),
            forall|j: int| 0 <= j < input.len() ==> (#[trigger] input[j]).slot == j && input[j].name@ == ns[j],
            out@.len() == k,
            forall|j: int| 0 <= j < k ==> out@[j] as int == #[trigger] p[j],
        decreases keys@.len() - k,
    {
        assert(output[k as int] == input[p[k as int]]);
        out.push(keys[k].slot);
        k = k + 1;
    }
    let ghost q = out@.map_values(|x: usize| x as int);
    assert(q =~= p);
    assert forall|a: int, b: int| 0 <= a < b < q.len() implies lex_order(ns[q[a]], ns[q[b]]) <= 0
        && (lex_order(ns[q[a]], ns[q[b]]) == 0 ==> q[a] < q[b]) by {
        assert(output[a] == input[p[a]]);
        assert(output[b] == input[p[b]]);
        assert(0 <= p[a] < input.len() && 0 <= p[b] < input.len());
        assert(input[p[a]].name@ == ns[p[a]]);
        assert(input[p[b]].name@ == ns[p[b]]);
        assert(directed_order(output[a], output[b], ProcessSortColumn::Name, true) <= 0);
    }
    out
}

#[verifier::external_type_specification]
#[verifier::external_body]
pub struct ExNvml(nvml_wrapper::Nvml);

/// Reads the first NVIDIA GPU through NVML.
pub struct GpuCollector {
    pub nvml: nvml_wrapper::Nvml,
    pub driver_version: String,
    pub cuda_version: Option<String>,
}

/// `nvml_wrapper::Nvml::init`, its error turned into the error's message.
/// Whether the library loads depends on the machine; nothing is stated.
#[verifier::external_body]
fn nvml_init() -> (r: Result<nvml_wrapper::Nvml, String>) {
    nvml_wrapper::Nvml::init().map_err(|e| e.to_string())
}

/// `Nvml::sys_driver_version`, `None` on error. What the driver reports is
/// not stated.
#[verifier::external_body]
fn nvml_driver_version(nvml: &nvml_wrapper::Nvml) -> (r: Option<String>) {
    nvml.sys_driver_version().ok()
}

/// `Nvml::sys_cuda_driver_version`, `None` on error. What the driver
/// reports is not stated.
#[verifier::external_body]
fn nvml_cuda_version(nvml: &nvml_wrapper::Nvml) -> (r: Option<i32>) {
    nvml.sys_cuda_driver_version().ok()
}

/// Integer division rounding toward zero, as Rust's `/` on integers does.
pub open spec fn div_toward_zero(a: int, b: int) -> int {
    if a >= 0 {
        a / b
    } else {
        -((-a) / b)
    }
}

/// The major CUDA version of a full version number (`version / 1000`).
pub open spec fn cuda_major_of(version: int) -> int {
    div_toward_zero(version, 1000)
}

/// The minor CUDA version of a full version number (`(version % 1000) / 10`).
pub open spec fn cuda_minor_of(version: int) -> int {
    div_toward_zero(version - div_toward_zero(version, 1000) * 1000, 10)
}

/// `nvml_wrapper::cuda_driver_version_major`, which the crate's source
/// computes as `version / 1000`.
#[verifier::external_body]
fn cuda_major(version: i32) -> (r: i32)
    ensures
        r == cuda_major_of(version as int),
{
    nvml_wrapper::cuda_driver_version_major(version)
}

/// `nvml_wrapper::cuda_driver_version_minor`, which the crate's source
/// computes as `(version % 1000) / 10`.
#[verifier::external_body]
fn cuda_minor(version: i32) -> (r: i32)
    ensures
        r == cuda_minor_of(version as int),
{
    nvml_wrapper::cuda_driver_version_minor(version)
}

/// The CUDA version shown for a full version number: `major.minor`.
pub fn cuda_version_text(version: i32) -> (r: String)
    ensures
        r@ == signed_decimal(cuda_major_of(version as int)) + seq!['.'] + signed_decimal(
            cuda_minor_of(version as int),
        ),
{
    let mut out = String::new();
    push_signed_decimal(&mut out, cuda_major(version) as i64);
    push_char(&mut out, '.');
    push_signed_decimal(&mut out, cuda_minor(version) as i64);
    out
}

/// The CUDA version text of a full version number `v` (see
/// [`cuda_version_text`]).
pub open spec fn cuda_text_of(v: int) -> Seq<char> {
    signed_decimal(cuda_major_of(v)) + seq!['.'] + signed_decimal(cuda_minor_of(v))
}

impl GpuCollector {
    /// Loads NVML and records the driver and CUDA versions; a failure to
    /// load is passed on as its message. Whatever the driver reported, a
    /// recorded CUDA version is the `major.minor` text of some full version
    /// number, as [`GpuCollector::from_versions`] makes it.
    pub fn try_new() -> (r: Result<GpuCollector, String>)
        ensures
            r matches Ok(g) ==> (g.cuda_version matches Some(t) ==> exists|v: i32|
                t@ == #[trigger] cuda_text_of(v as int)),
    {
        let nvml = match nvml_init() {
            Ok(n) => n,
            Err(e) => return Err(e),
        };
        let driver = nvml_driver_version(&nvml);
        let cuda = nvml_cuda_version(&nvml);
        let g = GpuCollector::from_versions(nvml, driver, cuda);
        proof {
            if let Some(v) = cuda {
                assert(g.cuda_version->0@ == cuda_text_of(v as int));
            }
        }
        Ok(g)
    }

    /// The collector for a loaded library and the versions it reported: a
    /// missing driver version shows as `?`, a CUDA version as `major.minor`.
    pub fn from_versions(nvml: nvml_wrapper::Nvml, driver: Option<String>, cuda: Option<i32>) -> (r:
        GpuCollector)
        ensures
            r.nvml == nvml,
            r.driver_version@ == (match driver {
                Some(d) => d@,
                None => "?"@,
            }),
            match cuda {
                Some(v) => r.cuda_version matches Some(t) && t@ == signed_decimal(
                    cuda_major_of(v as int),
                ) + seq!['.'] + signed_decimal(cuda_minor_of(v as int)),
                None => r.cuda_version is None,
            },
    {
        let driver_version = match driver {
            Some(d) => d,
            None => "?".to_string(),
        };
        proof {
            reveal_strlit("?");
        }
        let cuda_version = match cuda {
            Some(v) => Some(cuda_version_text(v)),
            None => None,
        };
        GpuCollector { nvml, driver_version, cuda_version }
    }
}

#[verifier::external_type_specification]
#[verifier::external_body]
pub struct ExBatteryManager(battery::Manager);


/// Reads the first battery of the machine through the `battery` crate.
pub struct BatteryCollector {
    pub manager: battery::Manager,
}

/// `battery::Manager::new`, its error turned into the error's message.
/// Whether it succeeds depends on the machine, so nothing is stated of the
/// result.
#[verifier::external_body]
fn open_battery_manager() -> (r: Result<battery::Manager, String>) {
    battery::Manager::new().map_err(|e| e.to_string())
}

/// `battery::Manager::batteries`, reduced to whether the listing gives a
/// first entry (a battery, or an error reading one); a failure to list is
/// turned into the error's message. What the machine lists is not stated.
#[verifier::external_body]
fn first_battery_listed(manager: &battery::Manager) -> (r: Result<bool, String>) {
    manager.batteries().map(|mut listed| listed.next().is_some()).map_err(|e| e.to_string())
}

/// The message given when the machine lists no battery.
pub open spec fn no_battery_message() -> Seq<char> {
    "no battery present"@
}

impl BatteryCollector {
    /// Opens the battery manager and lists the machine's batteries. A failure
    /// to open the manager is passed on as its message; otherwise the outcome
    /// is what [`BatteryCollector::from_probe`] states for the listing as it
    /// came back. Whether the manager opens and what it lists depend on the
    /// machine, so the contract states neither.
    pub fn try_new() -> (r: Result<BatteryCollector, String>) {
        let manager = match open_battery_manager() {
            Ok(m) => m,
            Err(e) => return Err(e),
        };
        let listed = first_battery_listed(&manager);
        BatteryCollector::from_probe(manager, listed)
    }

    /// The collector for an opened manager whose listing gave a first entry;
    /// a listing that failed or was empty gives the error "no battery present".
    pub fn from_probe(manager: battery::Manager, listed: Result<bool, String>) -> (r: Result<
        BatteryCollector,
        String,
    >)
        ensures
            listed == Ok::<bool, String>(true) ==> r == Ok::<BatteryCollector, String>(
                BatteryCollector { manager },
            ),
            listed != Ok::<bool, String>(true) ==> r is Err && r->Err_0@ == no_battery_message(),
    {
        let has_any = match listed {
            Ok(found) => found,
            Err(_) => false,
        };
        if has_any {
            Ok(BatteryCollector { manager })
        } else {
            proof {
                reveal_strlit("no battery present");
            }
            Err("no battery present".to_string())
        }
    }
}

/// The first position at which `needle` occurs in `hay` (meaningful when it occurs).
pub open spec fn first_occurrence(hay: Seq<char>, needle: Seq<char>) -> int {
    choose|i: int|
        occurs_at(hay, needle, i) && forall|k: int| 0 <= k < i ==> !occurs_at(hay, needle, k)
}

/// The core number in a sensor label such as `Core 3` or `coretemp Core 1`:
/// the digits right after the first `core ` of the lowercased label, if
/// there are any and they fit a `usize`.
pub open spec fn core_index_of(label: Seq<char>) -> Option<nat> {
    core_index_in(unicode_lowercase(label))
}

/// The core number in an already lowercased sensor label: the digits right
/// after its first `core `, if there are any and they fit a `usize`.
pub open spec fn core_index_in(l: Seq<char>) -> Option<nat> {
    if !contains_seq(l, "core "@) {
        None
    } else {
        let rest = l.skip(first_occurrence(l, "core "@) + 5);
        let d = rest.take(digit_run(rest) as int);
        if d.len() == 0 || digits_value(d) > usize::MAX {
            None
        } else {
            Some(digits_value(d))
        }
    }
}

/// The number written by the ASCII digits that start `s@.skip(start)`: `None`
/// when there are none or when it does not fit a `usize`.
fn leading_number(s: &Vec<char>, start: usize) -> (r: Option<usize>)
    requires
        start <= s@.len(),
    ensures
        ({
            let rest = s@.skip(start as int);
            let d = rest.take(digit_run(rest) as int);
            r == (if d.len() == 0 || digits_value(d) > usize::MAX {
                None
            } else {
                Some(digits_value(d) as usize)
            })
        }),
{
    let ghost rest = s@.skip(start as int);
    let n = s.len();
    let mut i: usize = start;
    let mut value: usize = 0;
    assert(rest.take(0) =~= Seq::<char>::empty());
    while i < n && '0' <= s[i] && s[i] <= '9'
        invariant
            n == s@.len(),
            start <= i <= n,
            rest == s@.skip(start as int),
            forall|t: int| 0 <= t < i - start ==> is_ascii_digit(rest[t]),
            value == digits_value(rest.take(i - start)),
        decreases n - i,
    {
        let dig = (s[i] as u32) - ('0' as u32);
        let ghost next = rest.take(i - start + 1);
        assert(next.drop_last() =~= rest.take(i - start));
        assert(next.last() == s@[i as int]);
        if value > (usize::MAX - dig as usize) / 10 {
            // The number does not fit; more digits only make it larger.
            proof {
                let run = rest.take(digit_run(rest) as int);
                assert(digits_value(next) == value * 10 + dig);
                assert(digits_value(next) > usize::MAX) by (nonlinear_arith)
                    requires
                        digits_value(next) == value * 10 + dig,
                        value > (usize::MAX - dig) / 10,
                        dig <= 9,
                ;
                lemma_digit_run_bounds(rest);
                assert(i - start + 1 <= digit_run(rest)) by {
                    if digit_run(rest) < i - start + 1 {
                        lemma_digit_run_of_prefix(rest, (i - start) as nat);
                        assert(rest[(i - start) as int] == s@[i as int]);
                    }
                }
                assert(run.take(i - start + 1) =~= next);
                lemma_digits_value_grows(run, i - start + 1);
            }
            return None;
        }
        value = value * 10 + dig as usize;
        i = i + 1;
    }
    proof {
        if i < n {
            assert(rest[(i - start) as int] == s@[i as int]);
        }
        lemma_digit_run_of_prefix(rest, (i - start) as nat);
    }
    if i == start {
        None
    } else {
        Some(value)
    }
}

/// Whether a lowercased sensor label names the CPU package: it contains
/// `package`.
pub fn mentions_package(label: &str) -> (r: bool)
    ensures
        r == contains_seq(label@, "package"@),
{
    let hay = chars_of(label);
    let needle = chars_of("package");
    contains_chars(&hay, &needle)
}

/// The core number in a sensor label (`Core 3`, `coretemp Core 1`), if any:
/// the label is lowercased and read by [`core_index_in_lowercase`].
pub fn parse_core_index(label: &str) -> (r: Option<usize>)
    ensures
        r matches Some(v) ==> core_index_of(label@) == Some(v as nat),
        r is None ==> core_index_of(label@) is None,
{
    let lower = to_lowercase(label);
    core_index_in_lowercase(lower.as_str())
}

/// The core number in an already lowercased sensor label (see [`core_index_in`]).
pub fn core_index_in_lowercase(lower_label: &str) -> (r: Option<usize>)
    ensures
        r matches Some(v) ==> core_index_in(lower_label@) == Some(v as nat),
        r is None ==> core_index_in(lower_label@) is None,
{
    let lower = chars_of(lower_label);
    let needle = chars_of("core ");
    proof {
        reveal_strlit("core ");
    }
    let n = lower.len();
    let pos = match find_chars(&lower, &needle) {
        Some(p) => p,
        None => {
            return None;
        },
    };
    let ghost l = lower@;
    assert(first_occurrence(l, "core "@) == pos) by {
        let f = first_occurrence(l, "core "@);
        assert(occurs_at(l, "core "@, pos as int));
        if f < pos {
            assert(!occurs_at(l, "core "@, f));
        } else if f > pos {
            assert(!occurs_at(l, "core "@, pos as int));
        }
    }
    assert(needle@.len() == 5);
    assert(pos + 5 <= n);
    leading_number(&lower, pos + 5)
}

/// GPU memory held by one process and how it uses the GPU.
#[derive(Clone, Copy, Debug, PartialEq, Eq, Structural)]
pub struct GpuProcessUsage {
    pub pid: u32,
    pub memory_used: u64,
    pub process_type: GpuProcessType,
}

/// Position of the first entry with `pid`, or -1.
pub open spec fn first_with_pid(s: Seq<GpuProcessUsage>, pid: u32) -> int
    decreases s.len(),
{
    if s.len() == 0 {
        -1
    } else if s[0].pid == pid {
        0
    } else {
        let r = first_with_pid(s.drop_first(), pid);
        if r < 0 {
            -1
        } else {
            r + 1
        }
    }
}

/// The list after one graphics process is reported: an entry already listed
/// under its pid becomes `Both` and keeps the larger memory figure;
/// otherwise a `Graphics` entry is appended.
pub open spec fn add_graphics(acc: Seq<GpuProcessUsage>, pid: u32, mem: u64) -> Seq<
    GpuProcessUsage,
> {
    let k = first_with_pid(acc, pid);
    if k >= 0 {
        acc.update(
            k,
            GpuProcessUsage {
                pid,
                memory_used: if acc[k].memory_used >= mem {
                    acc[k].memory_used
                } else {
                    mem
                },
                process_type: GpuProcessType::Both,
            },
        )
    } else {
        acc.push(GpuProcessUsage { pid, memory_used: mem, process_type: GpuProcessType::Graphics })
    }
}

/// The list after the graphics processes `g` are reported in order.
pub open spec fn add_all_graphics(acc: Seq<GpuProcessUsage>, g: Seq<(u32, u64)>) -> Seq<
    GpuProcessUsage,
>
    decreases g.len(),
{
    if g.len() == 0 {
        acc
    } else {
        add_all_graphics(add_graphics(acc, g[0].0, g[0].1), g.drop_first())
    }
}

/// The compute processes, each as a `Compute` entry, in order.
pub open spec fn compute_entries(c: Seq<(u32, u64)>) -> Seq<GpuProcessUsage> {
    Seq::new(
        c.len(),
        |i: int|
            GpuProcessUsage { pid: c[i].0, memory_used: c[i].1, process_type: GpuProcessType::Compute },
    )
}

proof fn lemma_first_with_pid(s: Seq<GpuProcessUsage>, pid: u32)
    ensures
        -1 <= first_with_pid(s, pid) < s.len(),
        first_with_pid(s, pid) >= 0 ==> s[first_with_pid(s, pid)].pid == pid,
        forall|i: int| 0 <= i < s.len() && (first_with_pid(s, pid) < 0 || i < first_with_pid(s, pid))
            ==> s[i].pid != pid,
    decreases s.len(),
{
    if s.len() > 0 && s[0].pid != pid {
        lemma_first_with_pid(s.drop_first(), pid);
        assert forall|i: int| 0 <= i < s.len() && (first_with_pid(s, pid) < 0 || i < first_with_pid(s, pid))
            implies s[i].pid != pid by {
            if i > 0 {
                assert(s[i] == s.drop_first()[i - 1]);
            }
        }
    }
}

/// The GPU processes as the driver reports them: first every compute
/// process, then the graphics processes merged in (see `add_graphics`).
pub fn merge_gpu_process_lists(compute: &Vec<(u32, u64)>, graphics: &Vec<(u32, u64)>) -> (r: Vec<
    GpuProcessUsage,
>)
    ensures
        r@ == add_all_graphics(compute_entries(compute@), graphics@),
{
    let mut acc: Vec<GpuProcessUsage> = Vec::new();
    let mut i: usize = 0;
    while i < compute.len()
        invariant
            i <= compute@.len(),
            acc@ == compute_entries(compute@.take(i as int)),
        decreases compute@.len() - i,
    {
        let (pid, mem) = compute[i];
        acc.push(GpuProcessUsage { pid, memory_used: mem, process_type: GpuProcessType::Compute });
        assert(acc@ =~= compute_entries(compute@.take(i + 1)));
        i = i + 1;
    }
    assert(compute@.take(i as int) =~= compute@);
    let ghost goal = add_all_graphics(acc@, graphics@);
    let mut k: usize = 0;
    assert(graphics@.skip(0) =~= graphics@);
    while k < graphics.len()
        invariant
            k <= graphics@.len(),
            add_all_graphics(acc@, graphics@.skip(k as int)) == goal,
        decreases graphics@.len() - k,
    {
        let (pid, mem) = graphics[k];
        let ghost before = acc@;
        proof {
            lemma_first_with_pid(before, pid);
        }
        let mut j: usize = 0;
        while j < acc.len() && acc[j].pid != pid
            invariant
                j <= acc@.len(),
                acc@ == before,
                forall|t: int| 0 <= t < j ==> acc@[t].pid != pid,
            decreases acc@.len() - j,
        {
            j = j + 1;
        }
        if j < acc.len() {
            assert(first_with_pid(before, pid) == j);
            let held = acc[j].memory_used;
            let m = if held >= mem {
                held
            } else {
                mem
            };
            acc.set(j, GpuProcessUsage { pid, memory_used: m, process_type: GpuProcessType::Both });
        } else {
            assert(first_with_pid(before, pid) < 0);
            acc.push(GpuProcessUsage { pid, memory_used: mem, process_type: GpuProcessType::Graphics });
        }
        assert(acc@ == add_graphics(before, pid, mem));
        assert(graphics@.skip(k as int).drop_first() =~= graphics@.skip(k + 1));
        k = k + 1;
    }
    acc
}

/// Position of the last GPU entry with `pid`, if any.
pub open spec fn last_with_pid(s: Seq<GpuProcessInfo>, pid: u32) -> Option<int>
    decreases s.len(),
{
    if s.len() == 0 {
        None
    } else if s.last().pid == pid {
        Some(s.len() - 1)
    } else {
        last_with_pid(s.drop_last(), pid)
    }
}

/// For each process id, the GPU entry that belongs to it: the last entry
/// with that id (a later report of the same id replaces an earlier one).
pub fn gpu_entry_indices(pids: &Vec<u32>, gpu: &Vec<GpuProcessInfo>) -> (r: Vec<Option<usize>>)
    ensures
        r@.len() == pids@.len(),
        forall|i: int|
            0 <= i < pids@.len() ==> (match #[trigger] r@[i] {
                Some(k) => last_with_pid(gpu@, pids@[i]) == Some(k as int),
                None => last_with_pid(gpu@, pids@[i]) is None,
            }),
{
    let mut out: Vec<Option<usize>> = Vec::new();
    let mut i: usize = 0;
    while i < pids.len()
        invariant
            i <= pids@.len(),
            out@.len() == i,
            forall|t: int|
                0 <= t < i ==> (match #[trigger] out@[t] {
                    Some(k) => last_with_pid(gpu@, pids@[t]) == Some(k as int),
                    None => last_with_pid(gpu@, pids@[t]) is None,
                }),
        decreases pids@.len() - i,
    {
        let pid = pids[i];
        let mut j: usize = gpu.len();
        assert(gpu@.take(j as int) =~= gpu@);
        while j > 0 && gpu[j - 1].pid != pid
            invariant
                j <= gpu@.len(),
                last_with_pid(gpu@, pid) == last_with_pid(gpu@.take(j as int), pid),
            decreases j,
        {
            assert(gpu@.take(j as int).drop_last() =~= gpu@.take(j - 1));
            j = j - 1;
        }
        let found = if j > 0 {
            Some(j - 1)
        } else {
            assert(gpu@.take(0) =~= Seq::<GpuProcessInfo>::empty());
            None
        };
        out.push(found);
        i = i + 1;
    }
    out
}

} // verus!
