# Carapace

Verification, rollback and tracing for the steps of an AI agent, with the rules
that decide about a step proved in Verus.

- Every step is checked before it runs: blocked commands and paths, file limits,
  known threats, contradictions with earlier steps, loops, drift from the plan, and
  what was learned from earlier failures. The strictest check decides.
- Completed steps are kept in a history of limited depth, with actions that undo
  them. A rollback runs those actions newest first.
- Recorded steps are searched for anomalies, summarized, exported, and analyzed for
  patterns that come with failures. Reliable patterns become rules that warn.

## Layout

| Path | What is there |
|---|---|
| `src/verification/` | checks and the decision on a step |
| `src/checkpoint/` | the rollback history, and checkpoints with git |
| `src/learner/` | counts, patterns and learned rules |
| `src/tracer/` | anomalies and CSV export |
| `src/engine.rs` | sessions, contexts, recorded steps |
| `src/storage.rs` | rows of the database and what they mean |
| `src/mcp.rs`, `src/tools.rs` | tool calls and their arguments |
| `src/cli.rs` | command lines and what is printed |
| `src/text.rs`, `src/number.rs` | text, numbers and instants |
| `src/outside.rs` | what is taken for granted of other crates |
| `app/` | the command, the database, git, and the MCP server |
| `tests/` | tests of the library |

The library does no input or output and no floating-point arithmetic. It holds
binary64 numbers by their bits, stores them and compares them. What has to be
computed with them is handed in by `app/`.
