# neovibe

A GTK4 shell with a Neovide editor pane, and the probes that exercise its parts.

`src/` is the library: the decisions behind the programs, as Verus code with
contracts. It works on plain values; times are nanoseconds of one clock.

| module | what it decides |
| --- | --- |
| `live`, `lifecycle` | when Neovim is started, when a frame is drawn, and what holds of every session |
| `keys` | what a key press sends |
| `clock`, `ticks` | frame times and the summary of display ticks |
| `perf`, `workload`, `frames` | the measured run: its script, its phases and its figures |
| `geometry`, `surface` | where content is drawn, and when a surface is rebuilt |
| `sweep`, `shell` | the moving divider, arguments and settings |
| `pump`, `glproc` | the pumped GL window and the lookup of GL functions |
| `theme`, `number`, `report`, `text` | the style sheet, the log lines and how numbers are written |

`app/` is the program around it: widgets, GPU contexts, the Neovim connection and
everything that is a floating-point number. Its first argument names the probe to
run (`shell_composed` without one).

`tests/` runs the library on concrete values.
