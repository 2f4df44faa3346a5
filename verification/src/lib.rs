//! Verified core of a coding-agent host's Spine feature.

pub mod agent_limits;
pub mod agent_shutdown;
pub mod archive;
pub mod capped_writer;
pub mod config_lock;
pub mod context_plan;
pub mod coordinator;
pub mod coordinator_laws;
pub mod debug_bundle;
pub mod debug_record;
pub mod feedback;
pub mod fragments;
pub mod gate_laws;
pub mod history;
pub mod history_laws;
pub mod initial_context;
pub mod input_queue;
pub mod json;
pub mod mailbox;
pub mod managed_install;
pub mod materialize;
pub mod materialize_laws;
pub mod memory_projection;
pub mod observer;
pub mod plan_laws;
pub mod record_laws;
pub mod redactor;
pub mod redactor_erasure;
pub mod redactor_laws;
pub mod redactor_pairing;
pub mod replay;
pub mod replay_laws;
pub mod rollout;
pub mod rollout_laws;
pub mod rollout_source;
pub mod sampling;
pub mod screenshots;
pub mod session;
pub mod session_snapshot;
pub mod shape_laws;
pub mod shapes;
pub mod snapshot_laws;
pub mod source_lines;
pub mod spawn;
pub mod spawn_batch;
pub mod spawn_control;
pub mod spawn_gate;
pub mod spawn_laws;
pub mod spawn_task_laws;
pub mod transaction_laws;
pub mod spawn_tasks;
pub mod spawn_transaction;
pub mod text;
pub mod text_laws;
pub mod text_map;
pub mod text_order;
pub mod tools;
