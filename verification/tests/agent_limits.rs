use spine_host::agent_limits::{
    is_execution_limited, AgentExecutionLimiter, AgentLimits, ExecutionGuard, MultiAgentVersion,
};

fn limits() -> AgentLimits {
    AgentLimits {
        agent_execution_limiter: AgentExecutionLimiter::default(),
        spine_spawn_limiter: AgentExecutionLimiter::default(),
    }
}

fn control_with_limit(max_threads: usize) -> AgentLimits {
    let mut control = limits();
    control.agent_execution_limiter.initialize(max_threads);
    control
}

#[test]
fn execution_guards_count_active_v2_subagent_turns() {
    let mut control = control_with_limit(1);
    // Child role configs cannot replace the root-derived session limit.
    control.agent_execution_limiter.initialize(2);

    assert_eq!(control.ensure_execution_capacity(MultiAgentVersion::V2, true), Ok(()));
    let first = control
        .execution_guard(MultiAgentVersion::V2, true, None)
        .expect("v2 subagent execution should be counted");
    assert_eq!(control.ensure_execution_capacity(MultiAgentVersion::V2, true), Err(1));

    control.release(first);
    assert_eq!(control.ensure_execution_capacity(MultiAgentVersion::V2, true), Ok(()));
}

#[test]
fn execution_guards_ignore_root_and_v1_turns() {
    let mut control = control_with_limit(0);

    assert!(control.execution_guard(MultiAgentVersion::V2, false, None).is_none());
    assert!(control.execution_guard(MultiAgentVersion::V1, true, None).is_none());
}

#[test]
fn spine_batch_reservations_are_atomic_and_claimed_by_agent_path() {
    let mut control = limits();
    control.spine_spawn_limiter.initialize(2);
    assert_eq!(control.spine_spawn_limiter.reserve(2), Ok(2));
    assert_eq!(control.spine_spawn_limiter.reserve(1), Err(2));

    control.spine_spawn_limiter.commit(String::from("/root/spawn_0"));
    control.spine_spawn_limiter.drop_reservation();
    let guard = control
        .execution_guard(MultiAgentVersion::Disabled, true, Some("/root/spawn_0"))
        .expect("reserved Spine child should claim dedicated capacity");
    assert_eq!(guard, ExecutionGuard::Spine);
    control.release(guard);

    assert_eq!(control.spine_spawn_limiter.reserve(2), Ok(2));
}

#[test]
fn spine_capacity_is_independent_from_native_v2_capacity() {
    let mut control = control_with_limit(0);
    control.spine_spawn_limiter.initialize(1);
    assert_eq!(control.spine_spawn_limiter.reserve(1), Ok(1));

    assert_eq!(control.ensure_execution_capacity(MultiAgentVersion::V2, true), Err(0));
}

#[test]
fn a_limiter_without_a_limit_admits_everything() {
    let mut limiter = AgentExecutionLimiter::default();
    assert_eq!(limiter.max_threads(), usize::MAX);
    assert!(limiter.has_capacity());
    assert_eq!(limiter.reserve(1000), Ok(1000));
    assert!(limiter.has_capacity());
}

#[test]
fn a_claimed_path_cannot_be_claimed_again() {
    let mut limiter = AgentExecutionLimiter::default();
    limiter.initialize(1);
    assert_eq!(limiter.reserve(1), Ok(1));
    limiter.commit(String::from("/root/a"));
    assert!(!limiter.claim("/root/b"));
    assert!(limiter.claim("/root/a"));
    assert!(!limiter.claim("/root/a"));
    assert!(!limiter.has_capacity());
    limiter.drop_guard();
    assert!(limiter.has_capacity());
}

#[test]
fn an_unclaimed_reservation_can_be_released() {
    let mut limiter = AgentExecutionLimiter::default();
    limiter.initialize(1);
    assert_eq!(limiter.reserve(1), Ok(1));
    limiter.commit(String::from("/root/a"));
    assert_eq!(limiter.reserve(1), Err(1));
    limiter.release_reserved("/root/a");
    assert_eq!(limiter.reserve(1), Ok(1));
}

#[test]
fn only_second_version_subagents_are_limited() {
    assert!(is_execution_limited(MultiAgentVersion::V2, true));
    assert!(!is_execution_limited(MultiAgentVersion::V2, false));
    assert!(!is_execution_limited(MultiAgentVersion::V1, true));
    assert!(!is_execution_limited(MultiAgentVersion::Disabled, true));
}

#[test]
fn a_batch_past_all_numbers_answers_with_the_limit() {
    let mut limiter = AgentExecutionLimiter::default();
    limiter.initialize(2);
    assert_eq!(limiter.reserve(1), Ok(1));
    assert_eq!(limiter.reserve(usize::MAX), Err(2));
    assert_eq!(limiter.reserve(1), Ok(1));
}
