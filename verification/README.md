# omnomon

A terminal system monitor for Linux laptops (CPU, NVIDIA GPU, memory, disks,
network, processes, battery, thermals), split into a verified library and a
thin program around it.

## Layout

- `src/` — the library, verified with Verus. Every function carries a
  `requires`/`ensures` contract over mathematical models (`Seq`, `nat`, views).
  - `history.rs` — the ring buffer behind every graph, and the per-core
    history bookkeeping.
  - `state.rs` — tabs, sort columns, the interface state, graph-window zoom,
    network interface selection.
  - `app.rs` — key handling (a function from state and key to new state and
    action), stable process ordering, the process filter.
  - `config.rs` — defaults and the combination of command-line options with
    the config file.
  - `theme.rs` — the built-in colour themes.
  - `collector.rs` — sensor-label parsing, GPU process-list merging, name
    ordering, fan labels, and the battery and NVML handles.
  - `parse.rs` — white space, `trim`, integer parsing and `/proc/meminfo`
    reading, as `std` defines them.
  - `util.rs`, `text.rs`, `ui.rs` — byte counts, frequencies, clock times,
    captions, gauges and the dashboard layout, all as exact strings.
- `tests/` — tests of the library on concrete values.
- `app/` — the program: argument parsing, config-file reading, the event
  loop, the readers of sysinfo/NVML/sysfs, and drawing with ratatui. Figures
  held as floating point (percentages, rates, temperatures) are handled here.

The laws the library promises (for example that pushing onto a full history
drops exactly the oldest entry, that the previous tab undoes the next one, or
that the refresh period always lies in 250–5000 ms) are public proof
functions named `law_*`.
