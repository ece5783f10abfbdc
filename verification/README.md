# rift

The logic of a remote workspace client: an explorer over a worktree that a
daemon mirrors, quick-open, the problems and outline panels, the terminal's seam
to tmux, the connection's life cycle, and the theme. Everything under `src/` is
verified with Verus.

- `src/` holds the state of each view and what its events do to it. A function
  that would touch the window, the network or the disk hands back plain values
  that say what is to be done.
- `app/` performs those actions: the window toolkit, the transport, the runtime
  and the files.
- `tests/` runs the library from outside.

Each type with state has a view, a ghost struct that the contracts speak of.
Proof functions whose names begin with `law_` state what holds of several
functions together: toggling a directory twice changes nothing, closing the
filter brings the tree back, a reconnect counts from one after every success.

A query of any length is taken. Where a score could leave the matcher's sixteen
bits, for a word and a path that are both longer than 2621 characters, the library
looks the words up itself, and every match has the highest rank. So it does for a
query with a backslash in a word beyond ASCII, which the matcher would read as two,
unless the backslash escapes a space.

What is taken on trust is small and marked where it stands: nucleo's path
matcher and its character tables, flume's channel, and the parts of the standard
library that convert case and decode UTF-8.
