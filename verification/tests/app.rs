use omnomon::app::{
    filter_processes, selected_pid, sort_processes, KeyAction, KeyCode, KeyPress, ProcessSortKey,
};
use omnomon::config::{CliArgs, ConfigFile, ResolvedConfig};
use omnomon::state::{AppState, ProcessSortColumn, Tab};

fn state() -> AppState {
    let args = CliArgs {
        rate: 1000,
        theme: None,
        config: None,
        no_gpu: false,
        fahrenheit: false,
        verbose: false,
    };
    AppState::new(&ResolvedConfig::from(&args, &ConfigFile::default()))
}

fn row(slot: usize, pid: u32, cpu: u32, mem: u32, name: &str, gpu: u64) -> ProcessSortKey {
    ProcessSortKey {
        slot,
        pid,
        cpu_rank: cpu,
        memory_rank: mem,
        name: name.chars().collect(),
        gpu_memory: gpu,
    }
}

fn rows() -> Vec<ProcessSortKey> {
    vec![
        row(0, 10, 5, 1, "bash", 0),
        row(1, 20, 9, 3, "Firefox", 2048),
        row(2, 30, 5, 2, "fire-helper", 0),
        row(3, 40, 1, 9, "Xorg", 4096),
    ]
}

fn pids(v: &[ProcessSortKey]) -> Vec<u32> {
    v.iter().map(|r| r.pid).collect()
}

fn press(code: KeyCode) -> KeyPress {
    KeyPress { code, control: false, press: true }
}

#[test]
fn sort_descending_cpu_is_stable() {
    let mut v = rows();
    sort_processes(&mut v, ProcessSortColumn::Cpu, false);
    // 10 and 30 tie on CPU and keep their input order.
    assert_eq!(pids(&v), vec![20, 10, 30, 40]);
}

#[test]
fn sort_ascending_cpu_is_stable() {
    let mut v = rows();
    sort_processes(&mut v, ProcessSortColumn::Cpu, true);
    assert_eq!(pids(&v), vec![40, 10, 30, 20]);
}

#[test]
fn sort_by_name_memory_pid_gpu() {
    let mut v = rows();
    sort_processes(&mut v, ProcessSortColumn::Name, true);
    // Code-point order puts upper case first.
    assert_eq!(pids(&v), vec![20, 40, 10, 30]);
    sort_processes(&mut v, ProcessSortColumn::Memory, false);
    assert_eq!(pids(&v), vec![40, 20, 30, 10]);
    sort_processes(&mut v, ProcessSortColumn::Pid, true);
    assert_eq!(pids(&v), vec![10, 20, 30, 40]);
    sort_processes(&mut v, ProcessSortColumn::Gpu, false);
    assert_eq!(pids(&v), vec![40, 20, 10, 30]);
}

#[test]
fn sort_empty() {
    let mut v: Vec<ProcessSortKey> = Vec::new();
    sort_processes(&mut v, ProcessSortColumn::Cpu, false);
    assert!(v.is_empty());
}

#[test]
fn filter_ignores_case() {
    let v = filter_processes(rows(), "FIRE");
    assert_eq!(pids(&v), vec![20, 30]);
    let all = filter_processes(rows(), "");
    assert_eq!(pids(&all), vec![10, 20, 30, 40]);
    let none = filter_processes(rows(), "zsh");
    assert!(none.is_empty());
}

#[test]
fn selected_pid_reads_filtered_sorted_table() {
    assert_eq!(selected_pid(rows(), "fire", ProcessSortColumn::Cpu, false, 0), Some(20));
    assert_eq!(selected_pid(rows(), "fire", ProcessSortColumn::Cpu, false, 1), Some(30));
    assert_eq!(selected_pid(rows(), "fire", ProcessSortColumn::Cpu, false, 2), None);
    assert_eq!(selected_pid(rows(), "", ProcessSortColumn::Pid, true, 3), Some(40));
}

#[test]
fn quit_keys() {
    let mut s = state();
    assert_eq!(s.handle_key(press(KeyCode::Char('q')), None, None), KeyAction::Quit);
    let ctrl_c = KeyPress { code: KeyCode::Char('c'), control: true, press: true };
    assert_eq!(s.handle_key(ctrl_c, None, None), KeyAction::Quit);
    assert_eq!(s.handle_key(press(KeyCode::Char('c')), None, None), KeyAction::Continue);
}

#[test]
fn key_release_is_ignored() {
    let mut s = state();
    let release = KeyPress { code: KeyCode::Char('q'), control: false, press: false };
    assert_eq!(s.handle_key(release, None, None), KeyAction::Continue);
    assert_eq!(s.current_tab, Tab::Dashboard);
}

#[test]
fn help_toggles_and_esc_closes() {
    let mut s = state();
    s.handle_key(press(KeyCode::Char('?')), None, None);
    assert!(s.show_help);
    s.handle_key(press(KeyCode::Char('?')), None, None);
    assert!(!s.show_help);
    s.handle_key(press(KeyCode::Char('?')), None, None);
    s.handle_key(press(KeyCode::Esc), None, None);
    assert!(!s.show_help);
}

#[test]
fn digit_and_tab_keys_switch_tabs() {
    let mut s = state();
    s.handle_key(press(KeyCode::Char('3')), None, None);
    assert_eq!(s.current_tab, Tab::Gpu);
    s.handle_key(press(KeyCode::Char('9')), None, None);
    assert_eq!(s.current_tab, Tab::Thermal);
    s.handle_key(press(KeyCode::Tab), None, None);
    assert_eq!(s.current_tab, Tab::Dashboard);
    s.handle_key(press(KeyCode::BackTab), None, None);
    assert_eq!(s.current_tab, Tab::Thermal);
    s.handle_key(press(KeyCode::Char('0')), None, None);
    assert_eq!(s.current_tab, Tab::Thermal);
}

#[test]
fn zoom_and_refresh_keys() {
    let mut s = state();
    assert_eq!(s.handle_key(press(KeyCode::Char('+')), None, None), KeyAction::ResizeHistories(30));
    assert_eq!(s.graph_time_window_secs, 30);
    assert_eq!(s.handle_key(press(KeyCode::Char('-')), None, None), KeyAction::ResizeHistories(60));
    assert_eq!(s.handle_key(press(KeyCode::Char('=')), None, None), KeyAction::ResizeHistories(30));
    assert_eq!(s.handle_key(press(KeyCode::Char('r')), None, None), KeyAction::Refresh);
}

#[test]
fn process_navigation() {
    let mut s = state();
    s.handle_key(press(KeyCode::Char('7')), None, None);
    assert_eq!(s.current_tab, Tab::Processes);
    s.handle_key(press(KeyCode::Down), Some(rows()), None);
    s.handle_key(press(KeyCode::Char('j')), Some(rows()), None);
    assert_eq!(s.process_selected_index, 2);
    s.handle_key(press(KeyCode::Char('G')), Some(rows()), None);
    assert_eq!(s.process_selected_index, 3);
    s.handle_key(press(KeyCode::Down), Some(rows()), None);
    assert_eq!(s.process_selected_index, 3);
    s.handle_key(press(KeyCode::Up), Some(rows()), None);
    assert_eq!(s.process_selected_index, 2);
    s.handle_key(press(KeyCode::Home), Some(rows()), None);
    assert_eq!(s.process_selected_index, 0);
    s.handle_key(press(KeyCode::Char('k')), Some(rows()), None);
    assert_eq!(s.process_selected_index, 0);
    // No snapshot yet: nothing to move over.
    s.handle_key(press(KeyCode::Down), None, None);
    assert_eq!(s.process_selected_index, 0);
    s.handle_key(press(KeyCode::End), None, None);
    assert_eq!(s.process_selected_index, 0);
}

#[test]
fn process_sort_and_tree_keys() {
    let mut s = state();
    s.current_tab = Tab::Processes;
    assert_eq!(s.process_sort, ProcessSortColumn::Cpu);
    assert!(!s.process_sort_ascending);
    s.handle_key(press(KeyCode::Char('s')), None, None);
    assert_eq!(s.process_sort, ProcessSortColumn::Memory);
    s.handle_key(press(KeyCode::Char('S')), None, None);
    assert!(s.process_sort_ascending);
    s.handle_key(press(KeyCode::Char('S')), None, None);
    assert!(!s.process_sort_ascending);
    s.handle_key(press(KeyCode::Char('t')), None, None);
    assert!(s.process_tree_view);
    s.handle_key(press(KeyCode::Char('t')), None, None);
    assert!(!s.process_tree_view);
}

#[test]
fn kill_keys_target_selected_row() {
    let mut s = state();
    s.current_tab = Tab::Processes;
    // Default order: CPU, descending -> 20, 10, 30, 40.
    s.process_selected_index = 1;
    assert_eq!(
        s.handle_key(press(KeyCode::Char('K')), Some(rows()), None),
        KeyAction::Terminate(10)
    );
    assert_eq!(
        s.handle_key(press(KeyCode::Char('D')), Some(rows()), None),
        KeyAction::ForceKill(10)
    );
    s.process_selected_index = 7;
    assert_eq!(s.handle_key(press(KeyCode::Char('K')), Some(rows()), None), KeyAction::Continue);
    assert_eq!(s.handle_key(press(KeyCode::Char('K')), None, None), KeyAction::Continue);
}

#[test]
fn filter_editing() {
    let mut s = state();
    s.current_tab = Tab::Processes;
    s.handle_key(press(KeyCode::Char('/')), None, None);
    assert!(s.process_filter_editing);
    for c in "fir".chars() {
        assert_eq!(s.handle_key(press(KeyCode::Char(c)), None, None), KeyAction::Continue);
    }
    // 'q' is text while editing, not quit.
    assert_eq!(s.handle_key(press(KeyCode::Char('q')), None, None), KeyAction::Continue);
    assert_eq!(s.process_filter, "firq");
    s.handle_key(press(KeyCode::Backspace), None, None);
    assert_eq!(s.process_filter, "fir");
    s.handle_key(press(KeyCode::Enter), None, None);
    assert!(!s.process_filter_editing);
    assert_eq!(s.process_filter, "fir");
    // With the filter applied the kill keys read the filtered table.
    s.process_selected_index = 1;
    assert_eq!(
        s.handle_key(press(KeyCode::Char('K')), Some(rows()), None),
        KeyAction::Terminate(30)
    );
    s.handle_key(press(KeyCode::Char('/')), None, None);
    s.handle_key(press(KeyCode::Esc), None, None);
    assert!(!s.process_filter_editing);
    assert_eq!(s.process_filter, "");
}

#[test]
fn esc_outside_editing_clears_applied_filter() {
    let mut s = state();
    s.current_tab = Tab::Processes;
    s.process_filter = "fire".to_string();
    s.show_help = true;
    assert_eq!(s.handle_key(press(KeyCode::Esc), None, None), KeyAction::Continue);
    assert!(!s.show_help);
    assert_eq!(s.process_filter, "");
    assert!(!s.process_filter_editing);
    s.current_tab = Tab::Cpu;
    s.process_filter = "bash".to_string();
    s.handle_key(press(KeyCode::Esc), None, None);
    assert_eq!(s.process_filter, "");
    assert_eq!(s.current_tab, Tab::Cpu);
}

#[test]
fn network_interface_cycles() {
    let mut s = state();
    s.handle_key(press(KeyCode::Char('6')), None, None);
    s.handle_key(press(KeyCode::Char('n')), None, Some(3));
    assert_eq!(s.selected_network_interface, 1);
    s.handle_key(press(KeyCode::Char('n')), None, Some(3));
    s.handle_key(press(KeyCode::Char('n')), None, Some(3));
    assert_eq!(s.selected_network_interface, 0);
    s.handle_key(press(KeyCode::Char('n')), None, Some(0));
    assert_eq!(s.selected_network_interface, 0);
    s.handle_key(press(KeyCode::Char('n')), None, None);
    assert_eq!(s.selected_network_interface, 0);
    // Elsewhere `n` does nothing.
    s.current_tab = Tab::Cpu;
    s.handle_key(press(KeyCode::Char('n')), None, Some(3));
    assert_eq!(s.selected_network_interface, 0);
}
