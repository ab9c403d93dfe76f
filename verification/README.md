# terminal_view

Persistence of the terminals of an editor, verified with Verus: what a terminal shows (a shell or
a tmux session), the table in which terminals are saved, the split layout of the terminal panel,
and the cleanup of terminals that nothing refers to any more.

- `src/` is the verified library. Contracts are stated over views: sequences, sets and maps. The
  functions named `law_...` state what holds across several operations, such as that reopening a
  panel brings its layout back, or that a saved terminal survives every cleanup.
- `app/` connects the library to an editor: SQL, JSON, windows and asynchronous work.
- `tests/` runs the library on concrete values.

Split weights are handled as the bit patterns of single precision numbers. Paths are handled as
the bytes or 16-bit units of which they consist.
