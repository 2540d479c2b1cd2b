# alps_ui

The verified core of the ALPS task console, a Dioxus front end over the
`alps` orchestrator command line.

- `src/` is the library, verified with Verus: discovering a new task's id
  in the orchestrator's start-up output, the path guard on task ids, log
  tailing with its capped buffers and cursors, `git log` parsing, the
  registry of spawned processes and the pid file that mirrors it, the
  calendar arithmetic behind the sample task list, the forms' state
  machines, and the labels the pages show.
- `app/` is the program around it: the pages and routes, and the
  server-side operations that spawn `alps`, `git` and `kill` and read and
  write files, each leaving its decisions to the library.
- `tests/` exercises the library on concrete values.
