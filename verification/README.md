# spine_host

The host side of a task tree ("Spine") that lives beside a model session: what a
session records of the tree, how it comes back after a resume, how branches are
spawned and gathered in again, and what leaves the machine in a feedback report.
Everything that decides is written in Verus and proved; what only moves bytes is
ordinary Rust.

## Layout

- `src/` is the verified library.
  - Rollouts and contexts: `rollout_source` (which records are in effect),
    `archive`, `replay`, `coordinator`, `sampling` and `session` (recording,
    replaying and resuming), `history`, `materialize`, `context_plan`,
    `fragments` and `initial_context` (what a model sees).
  - Spawning: `spawn_tasks`, `spawn_control`, `spawn_transaction`,
    `spawn_gate`, `spawn_batch`, `spawn`, `agent_limits`, `agent_shutdown`,
    `mailbox` and `input_queue`.
  - Feedback: `redactor`, `shapes`, `rollout` and `debug_record` (content-erased
    records), `source_lines`, `capped_writer`, `debug_bundle`, `screenshots` and
    `feedback`.
  - Configuration and the rest: `config_lock`, `session_snapshot`, `tools`,
    `observer`, `memory_projection`, `managed_install`, and the small tools
    `json`, `text`, `text_map` and `text_order`.
  - Laws that span several functions stand beside them, or in `redactor_laws`,
    `redactor_erasure` (no message text reaches a record), `redactor_pairing`
    (which output answers which call), `replay_laws` (a replay tells the runtime
    what the live session told it), `rollout_laws` and `spawn_laws`.
- `tests/` runs the library on concrete values, with the outside crates linked.
- `app/` reads and writes files, runs processes, serialises diagnostic records,
  and drives the library's state machines against a running host.

A state machine of the library says what is to be done next and takes what came
of it; the loop around it does the waiting and the sending.
