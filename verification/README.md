# citadel

A guarded workspace for a local, tool-using AI agent, verified with Verus.

- `src/` is the verified library:
  - `runner` — the limits under which the agent's commands run and how the
    outcome of a run is reported (output capped per stream, decoded as UTF-8);
  - `path`, `guard` — paths as they are written and as they resolve, and the
    rules that keep reads and writes inside the workspace root (a write is a
    step-by-step job whose file-system requests the caller performs);
  - `session`, `tools` — the conversation, where sessions are stored, the tools
    offered to the model and how a tool call is read;
  - `agent` — the agent's main loop as a state machine: from an event (a typed
    line, a model reply, a tool result) to its effects and what it waits for;
  - `cli`, `display`, `text` — the command line, styled output lines, and text
    helpers.
- `app/` is the program around it: argument parsing, the terminal, the file
  system, child processes and the model client.
- `tests/` exercises the library on concrete values.
