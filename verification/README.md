# cosca

Containment of subprocess trees: deciding how a command is spawned, which mechanism holds its tree, and
when that tree may be killed, waited for and cleaned up.

- `src/` is the library. Every decision is a function from plain values to plain values, or a state
  machine that asks the host one thing at a time and takes its answer; all of it is verified with Verus.
  `command` is the builder and the Windows creation flags; `containment` the mechanisms, `dispatch` the
  two phases round a spawn, `cgroup` the Linux leaf.
- `app/` performs what the library asks for on a running host.
- `tests/` run the library against hosts made of plain values.

Functions whose name begins with `law_` state what holds of the library as a whole.
