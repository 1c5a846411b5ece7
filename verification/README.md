# procapi

A process listing library whose logic is verified with Verus.

- `src/` — the verified library:
  - `text` — strings as character sequences: trimming, splitting, line
    splitting, decimal parsing, joining, UTF-8 decoding;
  - `sys` — low-level process records: letter-coded states, processes built
    from kernel status fields, task summaries from thread states;
  - `process` — process descriptions for callers, built from task summaries;
  - `model` — the cross-platform process model (`state`, `letters`) and the
    Linux (`/proc` listing, status file, task directory) and macOS (argument
    buffer, task) readers' decoding logic;
  - `snapshot` — a snapshot of the system's processes;
  - `laws` — properties that relate several functions.
- `app/` — the operating-system side: reads `/proc` (through `procfs` and
  `std::fs`) on Linux, and `libproc` and `sysctl` on macOS, and hands the
  values to the library.
- `tests/` — tests of the library on concrete values.
