# chopper

A command alias launcher: an alias is a small TOML (or one-line legacy) file
naming a command, fixed arguments, environment changes, PATH edits, optional
stderr routing into a journald namespace, and optional Rhai scripts that
adjust an invocation at run time or answer bash completion.

- `src/` is the verified library: alias documents and their validation,
  command-line parsing, invocation assembly, PATH list editing, the journal
  namespace policy of the broker, the terminal UI's state machine, and the
  checks applied to everything scripts hand back. Each function states its
  behaviour in `requires`/`ensures` and is proved with Verus.
- `app/` is the program around it: reading and writing files, the manifest
  cache, launching processes, the Rhai engine, D-Bus, and the terminal.
- `tests/` exercises the library on concrete values.
