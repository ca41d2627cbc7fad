# codex_acp

The decision logic of an ACP agent, verified with Verus.

- `src/fork.rs` finds the user message at which a session is forked, by its
  text and by which occurrence of that text is meant. `src/rollout.rs` holds the
  record of a session as far as this needs it, `src/contextual.rs` tells what a
  user typed from context that was injected, `src/fork_error.rs` builds the
  errors of the request, and `src/fork_laws.rs` states what holds of forking as
  a whole. A message that carries the host's own verdict is counted by it, and
  so by the very rule by which the host truncates. Without a verdict a text is
  injected context where it stands between the markers of a fragment.
- `src/memory_worker.rs` decides the steps of the commands `memory-run` and
  `memory-clear`; `src/home.rs` resolves their directories and names their lock
  file, `src/home_mutexes.rs` hands out the mutexes within a process,
  `src/report.rs` renders the report, and `src/memory_laws.rs` states what holds
  of both commands, above all that memories are touched only under the locks of
  their home.
- `src/startup.rs` decides the steps of starting the agent.
- `src/text.rs` states what the others need to know of text.

`app/` is the program around the library: it parses arguments, reads and writes,
talks to the agent's runtime, and asks the library what to do next.
