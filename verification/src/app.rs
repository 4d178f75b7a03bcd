use vstd::prelude::*;

use crate::state::{
    sort_column_after, tab_at, tab_position, zoomed_window, AppState, ProcessSortColumn, Tab,
    TAB_COUNT,
};
use crate::text::{
    chars_of, contains_chars, contains_seq, pop_char, push_char, to_lowercase, unicode_lowercase,
};

verus! {

/// What the process table is ordered by, for one process. `slot` is where
/// the process stands in the caller's list; it is carried along and never compared.
pub struct ProcessSortKey {
    pub slot: usize,
    pub pid: u32,
    /// A code whose numeric order is the order of the CPU usage.
    pub cpu_rank: u32,
    /// A code whose numeric order is the order of the memory usage.
    pub memory_rank: u32,
    pub name: Vec<char>,
    /// GPU memory in bytes, 0 when the process uses none.
    pub gpu_memory: u64,
}

/// -1, 0 or 1 as `a` is below, equal to or above `b`.
pub open spec fn num_order(a: int, b: int) -> int {
    if a < b {
        -1
    } else if a > b {
        1
    } else {
        0
    }
}

/// Lexicographic order of character sequences by code point (the order of
/// `String`'s `Ord`, which compares UTF-8 bytes).
pub open spec fn lex_order(a: Seq<char>, b: Seq<char>) -> int
    decreases a.len(),
{
    if a.len() == 0 && b.len() == 0 {
        0
    } else if a.len() == 0 {
        -1
    } else if b.len() == 0 {
        1
    } else if a[0] < b[0] {
        -1
    } else if a[0] > b[0] {
        1
    } else {
        lex_order(a.drop_first(), b.drop_first())
    }
}

/// The ascending order of two processes on a column: -1, 0 or 1.
pub open spec fn key_order(a: ProcessSortKey, b: ProcessSortKey, col: ProcessSortColumn) -> int {
    match col {
        ProcessSortColumn::Cpu => num_order(a.cpu_rank as int, b.cpu_rank as int),
        ProcessSortColumn::Memory => num_order(a.memory_rank as int, b.memory_rank as int),
        ProcessSortColumn::Pid => num_order(a.pid as int, b.pid as int),
        ProcessSortColumn::Name => lex_order(a.name@, b.name@),
        ProcessSortColumn::Gpu => num_order(a.gpu_memory as int, b.gpu_memory as int),
    }
}

/// The order of two processes on a column in the chosen direction.
pub open spec fn directed_order(
    a: ProcessSortKey,
    b: ProcessSortKey,
    col: ProcessSortColumn,
    ascending: bool,
) -> int {
    if ascending {
        key_order(a, b, col)
    } else {
        -key_order(a, b, col)
    }
}

/// `output` is `input` rearranged by `p` (`output[i] == input[p[i]]`, `p`
/// a permutation), ordered on the column, with processes that compare equal
/// kept in their input order.
pub open spec fn stable_arrangement(
    p: Seq<int>,
    input: Seq<ProcessSortKey>,
    output: Seq<ProcessSortKey>,
    col: ProcessSortColumn,
    ascending: bool,
) -> bool {
    &&& p.len() == input.len()
    &&& output.len() == input.len()
    &&& forall|i: int| 0 <= i < p.len() ==> 0 <= #[trigger] p[i] < input.len()
    &&& forall|i: int| 0 <= i < p.len() ==> #[trigger] output[i] == input[p[i]]
    &&& forall|i: int, j: int| 0 <= i < j < p.len() ==> p[i] != p[j]
    &&& forall|i: int, j: int|
        0 <= i < j < output.len() ==> directed_order(output[i], output[j], col, ascending) <= 0
    &&& forall|i: int, j: int|
        0 <= i < j < output.len() && directed_order(output[i], output[j], col, ascending) == 0
            ==> p[i] < p[j]
}

/// `output` is the stable sort of `input` on the column and direction.
pub open spec fn is_stable_sort(
    input: Seq<ProcessSortKey>,
    output: Seq<ProcessSortKey>,
    col: ProcessSortColumn,
    ascending: bool,
) -> bool {
    exists|p: Seq<int>| stable_arrangement(p, input, output, col, ascending)
}

proof fn lemma_lex_antisym(a: Seq<char>, b: Seq<char>)
    ensures
        lex_order(a, b) == -lex_order(b, a),
        lex_order(a, b) == 0 <==> a == b,
    decreases a.len(),
{
    if a.len() > 0 && b.len() > 0 && a[0] == b[0] {
        lemma_lex_antisym(a.drop_first(), b.drop_first());
        if a.drop_first() == b.drop_first() {
            assert(a =~= seq![a[0]] + a.drop_first());
            assert(b =~= seq![b[0]] + b.drop_first());
        }
    }
    if a.len() == 0 && b.len() == 0 {
        assert(a =~= b);
    }
}

proof fn lemma_lex_trans(a: Seq<char>, b: Seq<char>, c: Seq<char>)
    requires
        lex_order(a, b) <= 0,
        lex_order(b, c) <= 0,
    ensures
        lex_order(a, c) <= 0,
        lex_order(a, b) < 0 || lex_order(b, c) < 0 ==> lex_order(a, c) < 0,
    decreases a.len(),
{
    lemma_lex_antisym(a, b);
    lemma_lex_antisym(b, c);
    lemma_lex_antisym(a, c);
    if a.len() > 0 && b.len() > 0 && c.len() > 0 && a[0] == b[0] && b[0] == c[0] {
        lemma_lex_trans(a.drop_first(), b.drop_first(), c.drop_first());
    }
}

/// The ascending order on a column is antisymmetric and transitive.
pub proof fn lemma_key_order_total(
    a: ProcessSortKey,
    b: ProcessSortKey,
    c: ProcessSortKey,
    col: ProcessSortColumn,
)
    ensures
        key_order(a, b, col) == -key_order(b, a, col),
        -1 <= key_order(a, b, col) <= 1,
        key_order(a, b, col) <= 0 && key_order(b, c, col) <= 0 ==> key_order(a, c, col) <= 0,
        key_order(a, b, col) <= 0 && key_order(b, c, col) < 0 ==> key_order(a, c, col) < 0,
        key_order(a, b, col) < 0 && key_order(b, c, col) <= 0 ==> key_order(a, c, col) < 0,
{
    if col == ProcessSortColumn::Name {
        lemma_lex_antisym(a.name@, b.name@);
        lemma_lex_range(a.name@, b.name@);
        if key_order(a, b, col) <= 0 && key_order(b, c, col) <= 0 {
            lemma_lex_trans(a.name@, b.name@, c.name@);
        }
    }
}

proof fn lemma_lex_range(a: Seq<char>, b: Seq<char>)
    ensures
        -1 <= lex_order(a, b) <= 1,
    decreases a.len(),
{
    if a.len() > 0 && b.len() > 0 && a[0] == b[0] {
        lemma_lex_range(a.drop_first(), b.drop_first());
    }
}

fn lex_order_exec(a: &Vec<char>, b: &Vec<char>) -> (r: i8)
    ensures
        r == lex_order(a@, b@),
{
    let mut i: usize = 0;
    assert(a@.skip(0) =~= a@);
    assert(b@.skip(0) =~= b@);
    while i < a.len() && i < b.len()
        invariant
            i <= a@.len(),
            i <= b@.len(),
            a@.subrange(0, i as int) == b@.subrange(0, i as int),
            lex_order(a@, b@) == lex_order(a@.skip(i as int), b@.skip(i as int)),
        decreases a@.len() - i,
    {
        let x = a[i];
        let y = b[i];
        if x < y {
            return -1;
        }
        if x > y {
            return 1;
        }
        assert(a@.skip(i as int).drop_first() =~= a@.skip(i + 1));
        assert(b@.skip(i as int).drop_first() =~= b@.skip(i + 1));
        assert(a@.subrange(0, i + 1) =~= a@.subrange(0, i as int).push(x));
        assert(b@.subrange(0, i + 1) =~= b@.subrange(0, i as int).push(y));
        i = i + 1;
    }
    if i < a.len() {
        1
    } else if i < b.len() {
        -1
    } else {
        0
    }
}

fn num_order_exec(a: u64, b: u64) -> (r: i8)
    ensures
        r == num_order(a as int, b as int),
{
    if a < b {
        -1
    } else if a > b {
        1
    } else {
        0
    }
}

/// The ascending order of two processes on a column.
fn key_order_exec(a: &ProcessSortKey, b: &ProcessSortKey, col: ProcessSortColumn) -> (r: i8)
    ensures
        r == key_order(*a, *b, col),
{
    match col {
        ProcessSortColumn::Cpu => num_order_exec(a.cpu_rank as u64, b.cpu_rank as u64),
        ProcessSortColumn::Memory => num_order_exec(a.memory_rank as u64, b.memory_rank as u64),
        ProcessSortColumn::Pid => num_order_exec(a.pid as u64, b.pid as u64),
        ProcessSortColumn::Name => lex_order_exec(&a.name, &b.name),
        ProcessSortColumn::Gpu => num_order_exec(a.gpu_memory, b.gpu_memory),
    }
}

/// The directed order is antisymmetric and transitive.
pub proof fn lemma_directed_total(
    a: ProcessSortKey,
    b: ProcessSortKey,
    c: ProcessSortKey,
    col: ProcessSortColumn,
    ascending: bool,
)
    ensures
        directed_order(a, b, col, ascending) == -directed_order(b, a, col, ascending),
        directed_order(a, b, col, ascending) <= 0 && directed_order(b, c, col, ascending) <= 0
            ==> directed_order(a, c, col, ascending) <= 0,
        directed_order(a, b, col, ascending) <= 0 && directed_order(b, c, col, ascending) < 0
            ==> directed_order(a, c, col, ascending) < 0,
        directed_order(a, b, col, ascending) < 0 && directed_order(b, c, col, ascending) <= 0
            ==> directed_order(a, c, col, ascending) < 0,
{
    lemma_key_order_total(a, b, c, col);
    lemma_key_order_total(c, b, a, col);
    lemma_key_order_total(b, a, c, col);
    lemma_key_order_total(a, c, b, col);
}

fn directed_order_exec(
    a: &ProcessSortKey,
    b: &ProcessSortKey,
    col: ProcessSortColumn,
    ascending: bool,
) -> (r: i8)
    ensures
        r == directed_order(*a, *b, col, ascending),
{
    let o = key_order_exec(a, b, col);
    proof {
        lemma_key_order_total(*a, *b, *b, col);
    }
    if ascending {
        o
    } else {
        -o
    }
}

/// Orders the processes on a column, ascending or descending; processes
/// that compare equal keep their relative order.
pub fn sort_processes(procs: &mut Vec<ProcessSortKey>, col: ProcessSortColumn, ascending: bool)
    ensures
        is_stable_sort(old(procs)@, final(procs)@, col, ascending),
{
    let ghost orig = procs@;
    let mut input: Vec<ProcessSortKey> = Vec::new();
    std::mem::swap(&mut input, procs);
    let n = input.len();
    let mut out: Vec<ProcessSortKey> = Vec::new();
    let ghost mut p: Seq<int> = Seq::empty();
    let mut k: usize = 0;
    assert(orig.skip(0) =~= orig);
    while k < n
        invariant
            n == orig.len(),
            k <= n,
            input@ == orig.skip(k as int),
            stable_arrangement(p, orig.take(k as int), out@, col, ascending),
        decreases n - k,
    {
        assert(input@.len() > 0);
        let x = input.remove(0);
        assert(x == orig[k as int]);
        assert(input@ =~= orig.skip(k + 1));
        let mut j: usize = 0;
        while j < out.len() && directed_order_exec(&out[j], &x, col, ascending) <= 0
            invariant
                j <= out@.len(),
                forall|t: int| 0 <= t < j ==> directed_order(out@[t], x, col, ascending) <= 0,
            decreases out@.len() - j,
        {
            j = j + 1;
        }
        let ghost old_out = out@;
        let ghost old_p = p;
        out.insert(j, x);
        proof {
            p = old_p.insert(j as int, k as int);
            let prefix = orig.take(k + 1);
            assert(orig.take(k as int) =~= prefix.take(k as int));
            assert forall|i: int| 0 <= i < p.len() implies 0 <= #[trigger] p[i] < prefix.len()
                && out@[i] == prefix[p[i]] by {
                if i < j {
                    assert(p[i] == old_p[i]);
                    assert(out@[i] == old_out[i]);
                } else if i == j {
                } else {
                    assert(p[i] == old_p[i - 1]);
                    assert(out@[i] == old_out[i - 1]);
                }
            }
            assert forall|a: int, b: int| 0 <= a < b < p.len() implies p[a] != p[b] by {
                if a != j && b != j {
                    let a0 = if a < j { a } else { a - 1 };
                    let b0 = if b < j { b } else { b - 1 };
                    assert(p[a] == old_p[a0]);
                    assert(p[b] == old_p[b0]);
                    assert(a0 < b0);
                } else if a == j {
                    assert(p[b] == old_p[b - 1]);
                } else {
                    assert(p[a] == old_p[a]);
                }
            }
            assert forall|a: int, b: int| 0 <= a < b < out@.len() implies directed_order(
                out@[a],
                out@[b],
                col,
                ascending,
            ) <= 0 && (directed_order(out@[a], out@[b], col, ascending) == 0 ==> p[a] < p[b]) by {
                if a != j && b != j {
                    let a0 = if a < j { a } else { a - 1 };
                    let b0 = if b < j { b } else { b - 1 };
                    assert(out@[a] == old_out[a0]);
                    assert(out@[b] == old_out[b0]);
                    assert(p[a] == old_p[a0]);
                    assert(p[b] == old_p[b0]);
                    assert(a0 < b0);
                } else if b == j {
                    assert(out@[a] == old_out[a]);
                    assert(p[a] == old_p[a]);
                } else {
                    // a == j < b: x is strictly before everything from old position j on.
                    let b0 = b - 1;
                    assert(out@[b] == old_out[b0]);
                    assert(j < old_out.len());
                    assert(directed_order(old_out[j as int], x, col, ascending) > 0);
                    lemma_directed_total(x, old_out[j as int], old_out[b0], col, ascending);
                    if b0 > j {
                        assert(directed_order(old_out[j as int], old_out[b0], col, ascending) <= 0);
                    }
                    assert(directed_order(x, old_out[b0], col, ascending) < 0);
                }
            }
        }
        k = k + 1;
    }
    assert(orig.take(n as int) =~= orig);
    *procs = out;
}

/// Whether a process name passes the table filter: the filter is empty, or
/// its Unicode lowercase occurs in the lowercase name.
pub open spec fn passes_filter(name: Seq<char>, filter: Seq<char>) -> bool {
    filter.len() == 0 || contains_seq(unicode_lowercase(name), unicode_lowercase(filter))
}

/// The processes the table shows for a filter, in their given order.
pub open spec fn visible_processes(rows: Seq<ProcessSortKey>, filter: Seq<char>) -> Seq<
    ProcessSortKey,
> {
    rows.filter(|r: ProcessSortKey| passes_filter(r.name@, filter))
}

/// The Unicode lowercase of a name held as characters: the characters are
/// gathered into a string, lowercased, and split back into characters.
fn lowercase_chars(s: &Vec<char>) -> (r: Vec<char>)
    ensures
        r@ == unicode_lowercase(s@),
{
    let mut joined = String::new();
    let mut i: usize = 0;
    while i < s.len()
        invariant
            i <= s@.len(),
            joined@ == s@.subrange(0, i as int),
        decreases s@.len() - i,
    {
        push_char(&mut joined, s[i]);
        assert(joined@ =~= s@.subrange(0, i + 1));
        i = i + 1;
    }
    assert(joined@ =~= s@);
    chars_of(to_lowercase(joined.as_str()).as_str())
}

/// The processes that pass the filter, in their given order.
pub fn filter_processes(rows: Vec<ProcessSortKey>, filter: &str) -> (r: Vec<ProcessSortKey>)
    ensures
        r@ == visible_processes(rows@, filter@),
{
    let ghost orig = rows@;
    let mut input = rows;
    let n = input.len();
    let filter_lower = chars_of(to_lowercase(filter).as_str());
    let filter_empty = filter.unicode_len() == 0;
    let mut out: Vec<ProcessSortKey> = Vec::new();
    let mut k: usize = 0;
    assert(orig.skip(0) =~= orig);
    assert(orig.take(0).filter(|r: ProcessSortKey| passes_filter(r.name@, filter@)) =~= Seq::<
        ProcessSortKey,
    >::empty()) by {
        reveal_with_fuel(Seq::<_>::filter, 1);
    }
    while k < n
        invariant
            n == orig.len(),
            k <= n,
            input@ == orig.skip(k as int),
            filter_lower@ == unicode_lowercase(filter@),
            filter_empty == (filter@.len() == 0),
            out@ == orig.take(k as int).filter(|r: ProcessSortKey| passes_filter(r.name@, filter@)),
        decreases n - k,
    {
        assert(input@.len() > 0);
        let row = input.remove(0);
        assert(row == orig[k as int]);
        assert(input@ =~= orig.skip(k + 1));
        let keep = filter_empty || contains_chars(&lowercase_chars(&row.name), &filter_lower);
        assert(keep == passes_filter(row.name@, filter@));
        proof {
            reveal_with_fuel(Seq::<_>::filter, 1);
            assert(orig.take(k + 1).drop_last() =~= orig.take(k as int));
            assert(orig.take(k + 1).last() == row);
        }
        if keep {
            out.push(row);
        }
        k = k + 1;
    }
    assert(orig.take(n as int) =~= orig);
    out
}

/// The process id at a position of the table: the processes that pass the
/// filter, ordered on the column and direction.
pub fn selected_pid(
    rows: Vec<ProcessSortKey>,
    filter: &str,
    col: ProcessSortColumn,
    ascending: bool,
    index: usize,
) -> (r: Option<u32>)
    ensures
        exists|q: Seq<ProcessSortKey>|
            is_stable_sort(visible_processes(rows@, filter@), q, col, ascending) && r == (if index
                < q.len() {
                Some(q[index as int].pid)
            } else {
                None
            }),
{
    let mut procs = filter_processes(rows, filter);
    let ghost visible = procs@;
    sort_processes(&mut procs, col, ascending);
    let ghost q = procs@;
    if index < procs.len() {
        Some(procs[index].pid)
    } else {
        None
    }
}

/// A key of the keyboard, as far as the interface tells keys apart.
#[derive(Copy, Clone, PartialEq, Eq, Debug, Structural)]
pub enum KeyCode {
    Char(char),
    Esc,
    Enter,
    Backspace,
    Tab,
    BackTab,
    Up,
    Down,
    Home,
    End,
    Other,
}

/// A keyboard event: the key, whether Control was held, and whether it is a
/// press (rather than a release or a repeat).
#[derive(Copy, Clone, PartialEq, Eq, Debug, Structural)]
pub struct KeyPress {
    pub code: KeyCode,
    pub control: bool,
    pub press: bool,
}

/// What the caller is to do after a key has been handled.
#[derive(Copy, Clone, PartialEq, Eq, Debug, Structural)]
pub enum KeyAction {
    /// Nothing beyond redrawing.
    Continue,
    /// Leave the program.
    Quit,
    /// Collect a fresh snapshot now.
    Refresh,
    /// Resize every history buffer to this length.
    ResizeHistories(usize),
    /// Send SIGTERM to this process.
    Terminate(u32),
    /// Send SIGKILL to this process.
    ForceKill(u32),
}

/// Whether the key edits the process filter rather than acting as a command:
/// filter editing is on and the process tab is shown.
pub open spec fn editing_filter(s: AppState) -> bool {
    s.process_filter_editing && s.current_tab == Tab::Processes
}

/// The effect of a key while the process filter is being edited.
pub open spec fn filter_edit_step(old: AppState, new: AppState, key: KeyPress) -> bool {
    match key.code {
        KeyCode::Esc => new.process_filter@.len() == 0 && new == (AppState {
            process_filter_editing: false,
            process_filter: new.process_filter,
            ..old
        }),
        KeyCode::Enter => new == (AppState { process_filter_editing: false, ..old }),
        KeyCode::Backspace => new.process_filter@ == (if old.process_filter@.len() > 0 {
            old.process_filter@.drop_last()
        } else {
            old.process_filter@
        }) && new == (AppState { process_filter: new.process_filter, ..old }),
        KeyCode::Char(c) => new.process_filter@ == old.process_filter@.push(c) && new == (
        AppState { process_filter: new.process_filter, ..old }),
        _ => new == old,
    }
}

/// The process id a kill key acts on: the one at the selected row of the
/// filtered and ordered table, if the table reaches that row.
pub open spec fn kill_target(
    old: AppState,
    rows: Option<Seq<ProcessSortKey>>,
    q: Seq<ProcessSortKey>,
) -> Option<u32> {
    match rows {
        Some(rs) => if old.process_selected_index < q.len() {
            Some(q[old.process_selected_index as int].pid)
        } else {
            None
        },
        None => None,
    }
}

/// The ordered table the kill keys read: the filtered rows, stably sorted.
pub open spec fn is_table_order(
    old: AppState,
    rows: Option<Seq<ProcessSortKey>>,
    q: Seq<ProcessSortKey>,
) -> bool {
    match rows {
        Some(rs) => is_stable_sort(
            visible_processes(rs, old.process_filter@),
            q,
            old.process_sort,
            old.process_sort_ascending,
        ),
        None => true,
    }
}

/// The effect of a key on the process tab that is not a global command.
pub open spec fn process_key_step(
    old: AppState,
    new: AppState,
    key: KeyPress,
    rows: Option<Seq<ProcessSortKey>>,
    act: KeyAction,
) -> bool {
    let total: nat = match rows {
        Some(rs) => rs.len(),
        None => 0,
    };
    let sel = old.process_selected_index;
    match key.code {
        KeyCode::Up | KeyCode::Char('k') => act == KeyAction::Continue && new == (AppState {
            process_selected_index: if sel > 0 {
                (sel - 1) as usize
            } else {
                0
            },
            ..old
        }),
        KeyCode::Down | KeyCode::Char('j') => act == KeyAction::Continue && new == (AppState {
            process_selected_index: if sel + 1 < total {
                (sel + 1) as usize
            } else {
                sel
            },
            ..old
        }),
        KeyCode::Home | KeyCode::Char('g') => act == KeyAction::Continue && new == (AppState {
            process_selected_index: 0,
            ..old
        }),
        KeyCode::End | KeyCode::Char('G') => act == KeyAction::Continue && new == (AppState {
            process_selected_index: if total > 0 {
                (total - 1) as usize
            } else {
                0
            },
            ..old
        }),
        KeyCode::Char('/') => act == KeyAction::Continue && new == (AppState {
            process_filter_editing: true,
            ..old
        }),
        KeyCode::Char('s') => act == KeyAction::Continue && new == (AppState {
            process_sort: sort_column_after(old.process_sort),
            ..old
        }),
        KeyCode::Char('S') => act == KeyAction::Continue && new == (AppState {
            process_sort_ascending: !old.process_sort_ascending,
            ..old
        }),
        KeyCode::Char('t') => act == KeyAction::Continue && new == (AppState {
            process_tree_view: !old.process_tree_view,
            ..old
        }),
        KeyCode::Char('K') => new == old && exists|q: Seq<ProcessSortKey>|
            is_table_order(old, rows, q) && act == match kill_target(old, rows, q) {
                Some(pid) => KeyAction::Terminate(pid),
                None => KeyAction::Continue,
            },
        KeyCode::Char('D') => new == old && exists|q: Seq<ProcessSortKey>|
            is_table_order(old, rows, q) && act == match kill_target(old, rows, q) {
                Some(pid) => KeyAction::ForceKill(pid),
                None => KeyAction::Continue,
            },
        _ => act == KeyAction::Continue && new == old,
    }
}

/// The effect of a command key (filter editing off or another tab shown).
pub open spec fn command_key_step(
    old: AppState,
    new: AppState,
    key: KeyPress,
    rows: Option<Seq<ProcessSortKey>>,
    interfaces: Option<usize>,
    act: KeyAction,
) -> bool {
    let code = key.code;
    if code == KeyCode::Char('q') || (code == KeyCode::Char('c') && key.control) {
        act == KeyAction::Quit && new == old
    } else if code == KeyCode::Char('?') {
        act == KeyAction::Continue && new == (AppState { show_help: !old.show_help, ..old })
    } else if code == KeyCode::Esc {
        act == KeyAction::Continue && new.process_filter@.len() == 0 && new == (AppState {
            show_help: false,
            process_filter: new.process_filter,
            ..old
        })
    } else if code matches KeyCode::Char(d) && '1' <= d <= '9' {
        act == KeyAction::Continue && new == (AppState {
            current_tab: tab_at(((code->Char_0 as u32) - ('1' as u32)) as nat),
            ..old
        })
    } else if code == KeyCode::Tab {
        act == KeyAction::Continue && new == (AppState {
            current_tab: tab_at(tab_position(old.current_tab) + 1),
            ..old
        })
    } else if code == KeyCode::BackTab {
        act == KeyAction::Continue && new == (AppState {
            current_tab: tab_at(
                ((tab_position(old.current_tab) + TAB_COUNT - 1) % (TAB_COUNT as int)) as nat,
            ),
            ..old
        })
    } else if code == KeyCode::Char('+') || code == KeyCode::Char('=') || code == KeyCode::Char(
        '-',
    ) {
        let w = zoomed_window(old.graph_time_window_secs, code != KeyCode::Char('-'));
        act == KeyAction::ResizeHistories(w as usize) && new == (AppState {
            graph_time_window_secs: w,
            ..old
        })
    } else if code == KeyCode::Char('r') {
        act == KeyAction::Refresh && new == old
    } else if old.current_tab == Tab::Processes {
        process_key_step(old, new, key, rows, act)
    } else if old.current_tab == Tab::Network && code == KeyCode::Char('n') && interfaces is Some
        && interfaces->0 > 0 {
        act == KeyAction::Continue && new == (AppState {
            selected_network_interface: ((old.selected_network_interface + 1) % (
            interfaces->0 as int)) as usize,
            ..old
        })
    } else {
        act == KeyAction::Continue && new == old
    }
}

/// The row keys the kill keys read, as a sequence.
pub open spec fn rows_view(rows: Option<Vec<ProcessSortKey>>) -> Option<Seq<ProcessSortKey>> {
    match rows {
        Some(v) => Some(v@),
        None => None,
    }
}

impl AppState {
    fn kill_action(&self, force: bool, rows: Option<Vec<ProcessSortKey>>) -> (act: KeyAction)
        ensures
            exists|q: Seq<ProcessSortKey>|
                is_table_order(*self, rows_view(rows), q) && act == match kill_target(
                    *self,
                    rows_view(rows),
                    q,
                ) {
                    Some(pid) => if force {
                        KeyAction::ForceKill(pid)
                    } else {
                        KeyAction::Terminate(pid)
                    },
                    None => KeyAction::Continue,
                },
    {
        match rows {
            Some(rs) => {
                let pid = selected_pid(
                    rs,
                    self.process_filter.as_str(),
                    self.process_sort,
                    self.process_sort_ascending,
                    self.process_selected_index,
                );
                let ghost q = choose|q: Seq<ProcessSortKey>|
                    is_stable_sort(visible_processes(rs@, self.process_filter@), q, self.process_sort, self.process_sort_ascending)
                    && pid == (if self.process_selected_index < q.len() {
                        Some(q[self.process_selected_index as int].pid)
                    } else {
                        None
                    });
                assert(is_table_order(*self, rows_view(rows), q));
                match pid {
                    Some(p) => if force {
                        KeyAction::ForceKill(p)
                    } else {
                        KeyAction::Terminate(p)
                    },
                    None => KeyAction::Continue,
                }
            },
            None => {
                assert(is_table_order(*self, rows_view(rows), Seq::empty()));
                KeyAction::Continue
            },
        }
    }

    #[verifier::rlimit(50)]
    fn handle_process_key(&mut self, key: KeyPress, rows: Option<Vec<ProcessSortKey>>) -> (act:
        KeyAction)
        ensures
            process_key_step(*old(self), *final(self), key, rows_view(rows), act),
    {
        let total = match &rows {
            Some(v) => v.len(),
            None => 0,
        };
        let sel = self.process_selected_index;
        match key.code {
            KeyCode::Up | KeyCode::Char('k') => {
                self.process_selected_index = if sel > 0 {
                    sel - 1
                } else {
                    0
                };
                KeyAction::Continue
            },
            KeyCode::Down | KeyCode::Char('j') => {
                if total > 0 && sel < total - 1 {
                    self.process_selected_index = sel + 1;
                }
                KeyAction::Continue
            },
            KeyCode::Home | KeyCode::Char('g') => {
                self.process_selected_index = 0;
                KeyAction::Continue
            },
            KeyCode::End | KeyCode::Char('G') => {
                self.process_selected_index = if total > 0 {
                    total - 1
                } else {
                    0
                };
                KeyAction::Continue
            },
            KeyCode::Char('/') => {
                self.process_filter_editing = true;
                KeyAction::Continue
            },
            KeyCode::Char('s') => {
                self.process_sort = self.process_sort.next();
                KeyAction::Continue
            },
            KeyCode::Char('S') => {
                self.process_sort_ascending = !self.process_sort_ascending;
                KeyAction::Continue
            },
            KeyCode::Char('t') => {
                self.process_tree_view = !self.process_tree_view;
                KeyAction::Continue
            },
            KeyCode::Char('K') | KeyCode::Char('D') => {
                let force = key.code == KeyCode::Char('D');
                self.kill_action(force, rows)
            },
            _ => KeyAction::Continue,
        }
    }

    fn edit_filter(&mut self, key: KeyPress)
        ensures
            filter_edit_step(*old(self), *final(self), key),
    {
        match key.code {
            KeyCode::Esc => {
                self.process_filter_editing = false;
                self.process_filter = String::new();
            },
            KeyCode::Enter => {
                self.process_filter_editing = false;
            },
            KeyCode::Backspace => {
                pop_char(&mut self.process_filter);
            },
            KeyCode::Char(c) => {
                push_char(&mut self.process_filter, c);
            },
            _ => {},
        }
    }

    fn next_interface(&mut self, interfaces: Option<usize>)
        ensures
            interfaces is Some && interfaces->0 > 0 ==> *final(self) == (AppState {
                selected_network_interface: ((old(self).selected_network_interface + 1) % (
                interfaces->0 as int)) as usize,
                ..*old(self)
            }),
            !(interfaces is Some && interfaces->0 > 0) ==> *final(self) == *old(self),
    {
        if let Some(n) = interfaces {
            if n > 0 {
                let sel = self.selected_network_interface;
                proof {
                    vstd::arithmetic::div_mod::lemma_add_mod_noop(sel as int, 1, n as int);
                    vstd::arithmetic::div_mod::lemma_mod_twice(1, n as int);
                    if n > 1 {
                        vstd::arithmetic::div_mod::lemma_small_mod(1, n as nat);
                    }
                }
                self.selected_network_interface = (sel % n + 1) % n;
            }
        }
    }

    #[verifier::rlimit(50)]
    fn command_key(
        &mut self,
        key: KeyPress,
        rows: Option<Vec<ProcessSortKey>>,
        interfaces: Option<usize>,
    ) -> (act: KeyAction)
        ensures
            command_key_step(*old(self), *final(self), key, rows_view(rows), interfaces, act),
    {
        let code = key.code;
        if code == KeyCode::Char('q') || (code == KeyCode::Char('c') && key.control) {
            return KeyAction::Quit;
        }
        match code {
            KeyCode::Char('?') => {
                self.show_help = !self.show_help;
                KeyAction::Continue
            },
            KeyCode::Esc => {
                self.show_help = false;
                self.process_filter = String::new();
                KeyAction::Continue
            },
            KeyCode::Char(d) if '1' <= d && d <= '9' => {
                self.current_tab = Tab::from_index(((d as u32) - ('1' as u32)) as usize);
                KeyAction::Continue
            },
            KeyCode::Tab => {
                self.next_tab();
                KeyAction::Continue
            },
            KeyCode::BackTab => {
                self.prev_tab();
                KeyAction::Continue
            },
            KeyCode::Char('+') | KeyCode::Char('=') => {
                let cap = self.cycle_graph_window(true);
                KeyAction::ResizeHistories(cap)
            },
            KeyCode::Char('-') => {
                let cap = self.cycle_graph_window(false);
                KeyAction::ResizeHistories(cap)
            },
            KeyCode::Char('r') => KeyAction::Refresh,
            _ => {
                if self.current_tab == Tab::Processes {
                    self.handle_process_key(key, rows)
                } else {
                    if self.current_tab == Tab::Network && code == KeyCode::Char('n') {
                        self.next_interface(interfaces);
                    }
                    KeyAction::Continue
                }
            },
        }
    }

    /// Applies a key to the interface state and says what the caller is to do.
    /// `rows` are the processes of the current snapshot (`None` before the
    /// first one), `interfaces` the number of its network interfaces.
    pub fn handle_key(
        &mut self,
        key: KeyPress,
        rows: Option<Vec<ProcessSortKey>>,
        interfaces: Option<usize>,
    ) -> (act: KeyAction)
        ensures
            !key.press ==> act == KeyAction::Continue && *final(self) == *old(self),
            key.press && editing_filter(*old(self)) ==> act == KeyAction::Continue
                && filter_edit_step(*old(self), *final(self), key),
            key.press && !editing_filter(*old(self)) ==> command_key_step(
                *old(self),
                *final(self),
                key,
                rows_view(rows),
                interfaces,
                act,
            ),
    {
        if !key.press {
            return KeyAction::Continue;
        }
        if self.process_filter_editing && self.current_tab == Tab::Processes {
            self.edit_filter(key);
            return KeyAction::Continue;
        }
        self.command_key(key, rows, interfaces)
    }
}

/// Pressing `?` twice (outside filter editing) leaves the state as it was.
pub proof fn law_help_toggles_back(
    s0: AppState,
    s1: AppState,
    s2: AppState,
    key: KeyPress,
    rows: Option<Seq<ProcessSortKey>>,
    interfaces: Option<usize>,
    a1: KeyAction,
    a2: KeyAction,
)
    requires
        key.code == KeyCode::Char('?'),
        command_key_step(s0, s1, key, rows, interfaces, a1),
        command_key_step(s1, s2, key, rows, interfaces, a2),
    ensures
        s2 == s0,
        a1 == KeyAction::Continue,
        a2 == KeyAction::Continue,
{
}

/// `q`, and Control-C, quit without changing the state whenever the filter
/// is not being edited.
pub proof fn law_quit_keys(
    s0: AppState,
    s1: AppState,
    key: KeyPress,
    rows: Option<Seq<ProcessSortKey>>,
    interfaces: Option<usize>,
    act: KeyAction,
)
    requires
        key.code == KeyCode::Char('q') || (key.code == KeyCode::Char('c') && key.control),
        command_key_step(s0, s1, key, rows, interfaces, act),
    ensures
        act == KeyAction::Quit,
        s1 == s0,
{
}

/// The process-table navigation keeps the selection on the table: if the
/// selected row exists before a process key, it exists after it.
pub proof fn law_selection_stays_on_table(
    s0: AppState,
    s1: AppState,
    key: KeyPress,
    rs: Seq<ProcessSortKey>,
    act: KeyAction,
)
    requires
        process_key_step(s0, s1, key, Some(rs), act),
        s0.process_selected_index < rs.len(),
    ensures
        s1.process_selected_index < rs.len(),
{
}

/// While the filter is edited, Esc leaves editing with an empty filter,
/// Enter leaves editing keeping the filter, and a typed character is appended.
pub proof fn law_filter_editing(s0: AppState, s1: AppState, key: KeyPress)
    requires
        filter_edit_step(s0, s1, key),
    ensures
        key.code == KeyCode::Esc ==> !s1.process_filter_editing && s1.process_filter@.len() == 0,
        key.code == KeyCode::Enter ==> !s1.process_filter_editing && s1.process_filter@
            == s0.process_filter@,
        key.code matches KeyCode::Char(c) ==> s1.process_filter@ == s0.process_filter@.push(c)
            && s1.process_filter_editing == s0.process_filter_editing,
{
}

/// On the process tab, `S` and `t` are toggles: pressing either twice
/// leaves the state as it was.
pub proof fn law_process_toggles(
    s0: AppState,
    s1: AppState,
    s2: AppState,
    key: KeyPress,
    rows: Option<Seq<ProcessSortKey>>,
    a1: KeyAction,
    a2: KeyAction,
)
    requires
        key.code == KeyCode::Char('S') || key.code == KeyCode::Char('t'),
        process_key_step(s0, s1, key, rows, a1),
        process_key_step(s1, s2, key, rows, a2),
    ensures
        s2 == s0,
        a1 == KeyAction::Continue,
        a2 == KeyAction::Continue,
{
}

/// An empty filter shows every process, in its given order; any filter
/// shows no more processes than there are, each of them one that passes it.
pub proof fn law_filter_keeps_order(rows: Seq<ProcessSortKey>, filter: Seq<char>)
    ensures
        filter.len() == 0 ==> visible_processes(rows, filter) == rows,
        visible_processes(rows, filter).len() <= rows.len(),
        forall|i: int|
            0 <= i < visible_processes(rows, filter).len() ==> passes_filter(
                (#[trigger] visible_processes(rows, filter)[i]).name@,
                filter,
            ),
    decreases rows.len(),
{
    let f = |r: ProcessSortKey| passes_filter(r.name@, filter);
    rows.lemma_filter_len(f);
    assert forall|i: int| 0 <= i < visible_processes(rows, filter).len() implies passes_filter(
        (#[trigger] visible_processes(rows, filter)[i]).name@,
        filter,
    ) by {
        rows.lemma_filter_pred(f, i);
    }
    if filter.len() == 0 && rows.len() > 0 {
        law_filter_keeps_order(rows.drop_last(), filter);
        reveal_with_fuel(Seq::<_>::filter, 1);
        assert(rows.drop_last().push(rows.last()) =~= rows);
    }
    if rows.len() == 0 {
        reveal_with_fuel(Seq::<_>::filter, 1);
    }
}

/// Names order as strings do (`String`'s `Ord`): a name orders equal to
/// itself, and strictly before any longer name that it begins.
pub proof fn law_name_order_prefix(a: Seq<char>, t: Seq<char>)
    requires
        t.len() > 0,
    ensures
        lex_order(a, a) == 0,
        lex_order(a, a + t) < 0,
        lex_order(a + t, a) > 0,
    decreases a.len(),
{
    lemma_lex_antisym(a, a);
    if a.len() > 0 {
        law_name_order_prefix(a.drop_first(), t);
        assert((a + t).drop_first() =~= a.drop_first() + t);
        assert((a + t)[0] == a[0]);
    } else {
        assert(a + t =~= t);
    }
}

/// Names order as strings do: at the first position where two names
/// differ, the name with the smaller character there orders first.
pub proof fn law_name_order_first_difference(a: Seq<char>, b: Seq<char>, i: int)
    requires
        0 <= i < a.len(),
        i < b.len(),
        a.take(i) == b.take(i),
        a[i] < b[i],
    ensures
        lex_order(a, b) < 0,
        lex_order(b, a) > 0,
    decreases i,
{
    if i > 0 {
        assert(a[0] == a.take(i)[0]);
        assert(b[0] == b.take(i)[0]);
        assert(a.drop_first().take(i - 1) =~= a.take(i).drop_first());
        assert(b.drop_first().take(i - 1) =~= b.take(i).drop_first());
        law_name_order_first_difference(a.drop_first(), b.drop_first(), i - 1);
    }
}

/// Sorted by name ascending, no process comes after one whose name is a
/// longer name beginning with its own.
pub proof fn law_sorted_by_name_prefix_first(
    input: Seq<ProcessSortKey>,
    output: Seq<ProcessSortKey>,
    i: int,
    j: int,
    t: Seq<char>,
)
    requires
        is_stable_sort(input, output, ProcessSortColumn::Name, true),
        0 <= i < j < output.len(),
        t.len() > 0,
    ensures
        output[i].name@ != output[j].name@ + t,
{
    let p = choose|p: Seq<int>| stable_arrangement(p, input, output, ProcessSortColumn::Name, true);
    assert(directed_order(output[i], output[j], ProcessSortColumn::Name, true) <= 0);
    law_name_order_prefix(output[j].name@, t);
}

/// Whether the lowercased `filter` appears, at some position, as a block of
/// consecutive characters of the lowercased `name`.
pub open spec fn lowercase_holds(name: Seq<char>, filter: Seq<char>) -> bool {
    exists|k: int|
        0 <= k && k + unicode_lowercase(filter).len() <= unicode_lowercase(name).len()
            && #[trigger] unicode_lowercase(name).subrange(k, k + unicode_lowercase(filter).len())
            == unicode_lowercase(filter)
}

/// The filter keeps a process exactly when the filter is empty or the
/// lowercased filter occurs somewhere (at any position) in the lowercased
/// name.
pub proof fn law_filter_is_substring_match(name: Seq<char>, filter: Seq<char>, i: int)
    ensures
        ({
            let ln = unicode_lowercase(name);
            let lf = unicode_lowercase(filter);
            0 <= i && i + lf.len() <= ln.len() && ln.subrange(i, i + lf.len()) == lf
                ==> passes_filter(name, filter)
        }),
        filter.len() == 0 ==> passes_filter(name, filter),
        filter.len() > 0 ==> (passes_filter(name, filter) <==> lowercase_holds(name, filter)),
{
    let ln = unicode_lowercase(name);
    let lf = unicode_lowercase(filter);
    if 0 <= i && i + lf.len() <= ln.len() && ln.subrange(i, i + lf.len()) == lf {
        assert(crate::text::occurs_at(ln, lf, i));
    }
    if filter.len() > 0 && passes_filter(name, filter) {
        let k = choose|k: int| crate::text::occurs_at(ln, lf, k);
        assert(ln.subrange(k, k + lf.len()) == lf);
    }
    if lowercase_holds(name, filter) {
        let k = choose|k: int|
            0 <= k && k + lf.len() <= ln.len() && #[trigger] ln.subrange(k, k + lf.len()) == lf;
        assert(crate::text::occurs_at(ln, lf, k));
    }
}

/// A process whose lowercased name holds the lowercased filter anywhere is
/// shown, and every process shown holds it (or the filter is empty).
pub proof fn law_filter_shows_matching_rows(rows: Seq<ProcessSortKey>, filter: Seq<char>, r: int, i: int)
    requires
        0 <= r < rows.len(),
    ensures
        ({
            let ln = unicode_lowercase(rows[r].name@);
            let lf = unicode_lowercase(filter);
            (filter.len() == 0 || (0 <= i && i + lf.len() <= ln.len() && ln.subrange(i, i + lf.len())
                == lf)) ==> visible_processes(rows, filter).contains(rows[r])
        }),
        forall|v: int|
            0 <= v < visible_processes(rows, filter).len() && filter.len() > 0 ==> lowercase_holds(
                (#[trigger] visible_processes(rows, filter)[v]).name@,
                filter,
            ),
{
    let f = |x: ProcessSortKey| passes_filter(x.name@, filter);
    law_filter_is_substring_match(rows[r].name@, filter, i);
    if f(rows[r]) {
        rows.lemma_filter_contains(f, r);
    }
    assert forall|v: int|
        0 <= v < visible_processes(rows, filter).len() && filter.len() > 0 implies lowercase_holds(
            (#[trigger] visible_processes(rows, filter)[v]).name@,
            filter,
        ) by {
        rows.lemma_filter_pred(f, v);
        law_filter_is_substring_match(visible_processes(rows, filter)[v].name@, filter, 0);
    }
}

} // verus!
