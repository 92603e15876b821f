# stormglass

Reads session transcripts (JSONL, one content block per line) and reports
per-turn token telemetry: turns grouped by message id, context size and burn,
thinking share, tool use, subagent cost, a CSV export and a side-by-side
comparison of sessions.

## Layout

- `src/` — the library, verified with Verus.
  - `json.rs` — the parsed-JSON model the logic reads (`JsonValue`), its accessors,
    and the reading of a line (serde_json, the second trusted call).
  - `text.rs` — string primitives, tag extraction (`extract_u64`), decimal and
    thousands formatting (`commafy`).
  - `parse.rs` — classification of one line (`dispatch_line`, `dispatch_value`) and the
    per-message accumulator.
  - `metrics.rs` — usage, turns (`flush_turn`), the summary accumulator and
    `build_summary`; the RFC 3339 timestamp parse (chrono) is the one trusted call.
  - `session.rs` — the streaming session parser (`SessionParser`) and
    `analyze_lines` / `analyze_session`.
  - `agents.rs` — the token split of the agent transcripts.
  - `ranking.rs` — tallies and their orderings.
  - `output.rs` — CSV header and rows, durations.
  - `report.rs` — the human report and the comparison table, line by line.
  - `laws.rs` — properties that span several functions.
- `tests/` — tests against the library.
- `app/` — the command-line program: file reading, serialisation of the
  summary, floating-point ratios, printing.
