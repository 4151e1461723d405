# gothic

Automation of an agentic IDE through its DevTools page: tasks are submitted,
the sidebar task list is polled, and actions run when a task finishes, is
interrupted, or waits for a human.

- `src/` is the verified library: task identity across sidebar snapshots
  (`trae::editor`, `trae::tracker`), status diffing (`trae::workflow`),
  workflows and action chains, and the editor call of each step
  (`trae::types`, `trae::workflow`), configuration and its validation
  (`config`), the inputs on which the tracing filter parser panics
  (`filter`), path normalization (`utils`), string helpers (`text`), and the
  command-line values (`cli`).
- `app/` is the program around it: the command-line parser, the JSONC
  configuration file, logging, and everything that reads or clicks the page.
- `tests/` holds the tests of the library.
