# rtop

A lightweight terminal system monitor: CPU (global and per core), memory and
disk gauges, and a process table sorted by CPU or memory, with a name filter
and a key to kill the selected process.

The crate is in two parts.

- `src/` is the library, verified with Verus: the order of the process table
  (a stable sort from the heaviest process down), the filter line editor and
  the key bindings (`App::handle_key`), the process filter, the colours and
  labels of the gauges and table cells, the human-readable memory sizes and
  the exact reading of float readings from their bit patterns.
- `app/` is the program: it reads the machine with `sysinfo`, draws with
  `ratatui`, reads keys with `crossterm` and carries out the commands that the
  library returns (such as killing a process).

## Keys

Normal mode: `q`/`Esc` quit, `j`/`↓` and `k`/`↑` move the selection, `g`/`G`
jump to the first/last process, `s` toggles the sort between CPU and memory,
`f` starts typing a filter, `c` clears the filter and resumes sorting, `x` or
Backspace kills the selected process.

Filter mode: `Enter` applies the filter, Backspace deletes a character,
`←`/`→` move the cursor, `Esc` cancels.
