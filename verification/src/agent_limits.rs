//! How many agents may run at once.

use vstd::hash_set::StringHashSet;
use vstd::prelude::*;

verus! {

/// Counts running agents against a limit. Slots can be reserved before an agent
/// runs, and a reserved slot is claimed by the path of the agent that runs in
/// it.
pub struct AgentExecutionLimiter {
    active: usize,
    pending: usize,
    reserved_agent_paths: StringHashSet,
    max_threads: Option<usize>,
}

/// The model of an [`AgentExecutionLimiter`].
#[verifier::ext_equal]
pub ghost struct LimiterModel {
    pub active: nat,
    pub pending: nat,
    pub reserved: Set<Seq<char>>,
    pub max_threads: Option<usize>,
}

impl View for AgentExecutionLimiter {
    type V = LimiterModel;

    closed spec fn view(&self) -> LimiterModel {
        LimiterModel {
            active: self.active as nat,
            pending: self.pending as nat,
            reserved: self.reserved_agent_paths@,
            max_threads: self.max_threads,
        }
    }
}

/// The limit; there is none until one is set.
pub open spec fn limit(m: LimiterModel) -> usize {
    match m.max_threads {
        Some(max) => max,
        None => usize::MAX,
    }
}

/// A number, or the largest machine number where it is larger.
pub open spec fn clamped(n: nat) -> nat {
    if n <= usize::MAX {
        n
    } else {
        usize::MAX as nat
    }
}

/// One less, but not below zero.
pub open spec fn one_less(n: nat) -> nat {
    if n > 0 {
        (n - 1) as nat
    } else {
        0
    }
}

/// Whether one more agent fits.
pub open spec fn fits_one(m: LimiterModel) -> bool {
    clamped(m.active + m.pending) < limit(m)
}

/// Whether a batch fits.
pub open spec fn fits(m: LimiterModel, count: nat) -> bool {
    count == 0 || clamped(m.active + m.pending + count) <= limit(m)
}

/// The counts with a batch reserved.
pub open spec fn reserved(m: LimiterModel, count: nat) -> LimiterModel {
    LimiterModel { pending: m.pending + count, ..m }
}

/// The counts with a reservation given up.
pub open spec fn dropped(m: LimiterModel) -> LimiterModel {
    LimiterModel { pending: one_less(m.pending), ..m }
}

/// The counts with a reservation turned into a running agent.
pub open spec fn committed(m: LimiterModel, path: Seq<char>) -> LimiterModel {
    LimiterModel {
        active: m.active + 1,
        pending: one_less(m.pending),
        reserved: m.reserved.insert(path),
        ..m
    }
}

/// The counts with a path's slot claimed.
pub open spec fn claimed(m: LimiterModel, path: Seq<char>) -> LimiterModel {
    LimiterModel { reserved: m.reserved.remove(path), ..m }
}

/// The counts with a path's slot given up before it was claimed.
pub open spec fn released(m: LimiterModel, path: Seq<char>) -> LimiterModel {
    if m.reserved.contains(path) {
        LimiterModel { active: one_less(m.active), reserved: m.reserved.remove(path), ..m }
    } else {
        m
    }
}

/// The counts with an agent gone.
pub open spec fn finished(m: LimiterModel) -> LimiterModel {
    LimiterModel { active: one_less(m.active), ..m }
}

impl Default for AgentExecutionLimiter {
    fn default() -> (r: Self)
        ensures
            r@ == (LimiterModel {
                active: 0,
                pending: 0,
                reserved: Set::empty(),
                max_threads: None,
            }),
    {
        AgentExecutionLimiter {
            active: 0,
            pending: 0,
            reserved_agent_paths: StringHashSet::new(),
            max_threads: None,
        }
    }
}

impl AgentExecutionLimiter {
    /// Sets the limit, unless one was set before.
    pub fn initialize(&mut self, max_threads: usize)
        ensures
            final(self)@ == (LimiterModel {
                max_threads: match old(self)@.max_threads {
                    Some(max) => Some(max),
                    None => Some(max_threads),
                },
                ..old(self)@
            }),
    {
        if self.max_threads.is_none() {
            self.max_threads = Some(max_threads);
        }
    }

    pub fn max_threads(&self) -> (r: usize)
        ensures
            r == limit(self@),
    {
        match self.max_threads {
            Some(max) => max,
            None => usize::MAX,
        }
    }

    pub fn has_capacity(&self) -> (r: bool)
        ensures
            r == fits_one(self@),
    {
        self.active.saturating_add(self.pending) < self.max_threads()
    }

    /// Reserves a whole batch or none of it; the error is the limit.
    pub fn reserve(&mut self, count: usize) -> (r: Result<usize, usize>)
        requires
            limit(old(self)@) == usize::MAX ==> old(self)@.pending + count <= usize::MAX,
        ensures
            match r {
                Ok(n) => n == count && fits(old(self)@, count as nat) && final(self)@ == reserved(
                    old(self)@,
                    count as nat,
                ),
                Err(max) => {
                    &&& !fits(old(self)@, count as nat)
                    &&& max == limit(old(self)@)
                    &&& final(self)@ == old(self)@
                },
            },
    {
        if count == 0 {
            return Ok(0);
        }
        let max_threads = self.max_threads();
        if self.active.saturating_add(self.pending).saturating_add(count) > max_threads {
            return Err(max_threads);
        }
        self.pending = self.pending + count;
        Ok(count)
    }

    /// A reserved agent starts to run under a path.
    pub fn commit(&mut self, agent_path: String)
        requires
            old(self)@.active < usize::MAX,
        ensures
            final(self)@ == committed(old(self)@, agent_path@),
    {
        self.pending = self.pending.saturating_sub(1);
        self.active = self.active + 1;
        self.reserved_agent_paths.insert(agent_path);
    }

    /// A reservation is given up.
    pub fn drop_reservation(&mut self)
        ensures
            final(self)@ == dropped(old(self)@),
    {
        self.pending = self.pending.saturating_sub(1);
    }

    /// Claims the slot that was committed under a path.
    pub fn claim(&mut self, agent_path: &str) -> (r: bool)
        ensures
            r == old(self)@.reserved.contains(agent_path@),
            final(self)@ == claimed(old(self)@, agent_path@),
    {
        self.reserved_agent_paths.remove(agent_path)
    }

    /// Gives up the slot that was committed under a path, if it was not
    /// claimed.
    pub fn release_reserved(&mut self, agent_path: &str)
        ensures
            final(self)@ == released(old(self)@, agent_path@),
    {
        if self.reserved_agent_paths.remove(agent_path) {
            self.active = self.active.saturating_sub(1);
        } else {
            assert(self@.reserved =~= old(self)@.reserved);
        }
    }

    /// Counts an agent as running.
    pub fn guard(&mut self)
        requires
            old(self)@.active < usize::MAX,
        ensures
            final(self)@ == (LimiterModel { active: old(self)@.active + 1, ..old(self)@ }),
    {
        self.active = self.active + 1;
    }

    /// A running agent is gone.
    pub fn drop_guard(&mut self)
        ensures
            final(self)@ == finished(old(self)@),
    {
        self.active = self.active.saturating_sub(1);
    }
}

/// Which agents the session runs.
#[derive(Clone, Copy, Debug, PartialEq, Eq, Structural)]
pub enum MultiAgentVersion {
    Disabled,
    V1,
    V2,
}

/// Whether a session counts against the native limit.
pub fn is_execution_limited(multi_agent_version: MultiAgentVersion, is_sub_agent: bool) -> (r: bool)
    ensures
        r == (multi_agent_version == MultiAgentVersion::V2 && is_sub_agent),
{
    multi_agent_version == MultiAgentVersion::V2 && is_sub_agent
}

/// The limiter that a running agent is counted by.
#[derive(Clone, Copy, Debug, PartialEq, Eq, Structural)]
pub enum ExecutionGuard {
    Native,
    Spine,
}

/// The native limit, and the one of spawned branches.
pub struct AgentLimits {
    pub agent_execution_limiter: AgentExecutionLimiter,
    pub spine_spawn_limiter: AgentExecutionLimiter,
}

impl Default for AgentLimits {
    fn default() -> (r: Self)
        ensures
            r.agent_execution_limiter@ == (LimiterModel {
                active: 0,
                pending: 0,
                reserved: Set::empty(),
                max_threads: None,
            }),
            r.spine_spawn_limiter@ == r.agent_execution_limiter@,
    {
        AgentLimits {
            agent_execution_limiter: AgentExecutionLimiter::default(),
            spine_spawn_limiter: AgentExecutionLimiter::default(),
        }
    }
}

impl AgentLimits {
    /// Refuses a turn of a counted agent where the native limit is reached; the
    /// error is the limit.
    pub fn ensure_execution_capacity(
        &self,
        multi_agent_version: MultiAgentVersion,
        is_sub_agent: bool,
    ) -> (r: Result<(), usize>)
        ensures
            ({
                let limited = multi_agent_version == MultiAgentVersion::V2 && is_sub_agent;
                match r {
                    Ok(()) => !limited || fits_one(self.agent_execution_limiter@),
                    Err(max) => limited && !fits_one(self.agent_execution_limiter@) && max == limit(
                        self.agent_execution_limiter@,
                    ),
                }
            }),
    {
        if !is_execution_limited(multi_agent_version, is_sub_agent) {
            return Ok(());
        }
        let max_threads = self.agent_execution_limiter.max_threads();
        if self.agent_execution_limiter.has_capacity() {
            Ok(())
        } else {
            Err(max_threads)
        }
    }

    /// Counts an agent that begins to run: by the slot committed under its
    /// path where there is one, else by the native limit where that counts it.
    pub fn execution_guard(
        &mut self,
        multi_agent_version: MultiAgentVersion,
        is_sub_agent: bool,
        agent_path: Option<&str>,
    ) -> (r: Option<ExecutionGuard>)
        requires
            old(self).agent_execution_limiter@.active < usize::MAX,
        ensures
            ({
                let claims = agent_path matches Some(path) && old(
                    self,
                ).spine_spawn_limiter@.reserved.contains(path@);
                let limited = multi_agent_version == MultiAgentVersion::V2 && is_sub_agent;
                let native = old(self).agent_execution_limiter@;
                &&& r == if claims {
                    Some(ExecutionGuard::Spine)
                } else if limited {
                    Some(ExecutionGuard::Native)
                } else {
                    None
                }
                &&& final(self).spine_spawn_limiter@ == match agent_path {
                    Some(path) => claimed(old(self).spine_spawn_limiter@, path@),
                    None => old(self).spine_spawn_limiter@,
                }
                &&& final(self).agent_execution_limiter@ == if !claims && limited {
                    LimiterModel { active: native.active + 1, ..native }
                } else {
                    native
                }
            }),
    {
        if let Some(path) = agent_path {
            if self.spine_spawn_limiter.claim(path) {
                return Some(ExecutionGuard::Spine);
            }
        }
        if is_execution_limited(multi_agent_version, is_sub_agent) {
            self.agent_execution_limiter.guard();
            return Some(ExecutionGuard::Native);
        }
        None
    }

    /// An agent that was counted is gone.
    pub fn release(&mut self, guard: ExecutionGuard)
        ensures
            match guard {
                ExecutionGuard::Native => final(self).agent_execution_limiter@ == finished(
                    old(self).agent_execution_limiter@,
                ) && final(self).spine_spawn_limiter@ == old(self).spine_spawn_limiter@,
                ExecutionGuard::Spine => final(self).spine_spawn_limiter@ == finished(
                    old(self).spine_spawn_limiter@,
                ) && final(self).agent_execution_limiter@ == old(self).agent_execution_limiter@,
            },
    {
        match guard {
            ExecutionGuard::Native => {
                self.agent_execution_limiter.drop_guard();
            },
            ExecutionGuard::Spine => {
                self.spine_spawn_limiter.drop_guard();
            },
        }
    }
}

/// Whether what runs and what is reserved stays within the limit.
pub open spec fn within_limit(m: LimiterModel) -> bool {
    m.active + m.pending <= limit(m)
}

/// Reservations never go beyond the limit: not when a batch is reserved, when
/// one of it starts, is given up, is claimed, or ends.
pub proof fn reservations_stay_within_the_limit(m: LimiterModel, count: nat, path: Seq<char>)
    requires
        within_limit(m),
    ensures
        fits(m, count) && m.active + m.pending + count <= usize::MAX ==> within_limit(
            reserved(m, count),
        ),
        m.pending > 0 ==> within_limit(committed(m, path)),
        within_limit(dropped(m)),
        within_limit(claimed(m, path)),
        within_limit(released(m, path)),
        within_limit(finished(m)),
{
}

/// A batch whose reservations are all given up.
pub open spec fn dropped_all(m: LimiterModel, count: nat) -> LimiterModel
    decreases count,
{
    if count == 0 {
        m
    } else {
        dropped_all(dropped(m), (count - 1) as nat)
    }
}

/// Giving a whole batch up restores what was before it was reserved.
pub proof fn a_dropped_batch_leaves_nothing(m: LimiterModel, count: nat)
    ensures
        dropped_all(reserved(m, count), count) == m,
    decreases count,
{
    if count > 0 {
        assert(dropped(reserved(m, count)) == reserved(m, (count - 1) as nat));
        a_dropped_batch_leaves_nothing(m, (count - 1) as nat);
    } else {
        assert(reserved(m, 0) == m);
    }
}

/// An agent that was reserved, started, claimed and ended leaves its slot free.
pub proof fn a_finished_agent_leaves_its_slot(m: LimiterModel, path: Seq<char>)
    requires
        !m.reserved.contains(path),
    ensures
        finished(claimed(committed(reserved(m, 1), path), path)) == m,
        released(committed(reserved(m, 1), path), path) == m,
{
    assert(m.reserved.insert(path).remove(path) =~= m.reserved);
}

/// One more agent fits, and a batch fits, exactly where those that run and those
/// that are reserved leave room for them; without a limit everything fits.
pub proof fn what_fits(m: LimiterModel, count: nat)
    requires
        m.active + m.pending + count <= usize::MAX,
    ensures
        m.max_threads matches Some(max) ==> (fits(m, count) <==> count == 0 || m.active + m.pending
            + count <= max),
        m.max_threads matches Some(max) ==> (max > m.active + m.pending ==> fits_one(m)),
        m.max_threads matches Some(max) ==> (max <= m.active + m.pending ==> !fits_one(m)),
        m.max_threads is None ==> fits(m, count),
        m.max_threads is None && m.active + m.pending < usize::MAX ==> fits_one(m),
        m.active + m.pending < usize::MAX ==> (fits(m, 1) <==> fits_one(m)),
{
}

/// What each step does to the counts, and that it leaves the limit alone.
pub proof fn steps_count(m: LimiterModel, count: nat, path: Seq<char>, other: Seq<char>)
    ensures
        reserved(m, count).pending == m.pending + count,
        reserved(m, count).active == m.active,
        m.pending > 0 ==> dropped(m).pending + 1 == m.pending,
        dropped(m).active == m.active,
        committed(m, path).active == m.active + 1,
        m.pending > 0 ==> committed(m, path).pending + 1 == m.pending,
        committed(m, path).reserved.contains(path),
        !claimed(m, path).reserved.contains(path),
        claimed(m, path).active == m.active,
        claimed(m, path).pending == m.pending,
        m.reserved.contains(path) && m.active > 0 ==> released(m, path).active + 1 == m.active,
        !m.reserved.contains(path) ==> released(m, path) == m,
        !released(m, path).reserved.contains(path),
        m.active > 0 ==> finished(m).active + 1 == m.active,
        finished(m).pending == m.pending,
        other != path ==> (committed(m, path).reserved.contains(other) <==> m.reserved.contains(
            other,
        )) && (claimed(m, path).reserved.contains(other) <==> m.reserved.contains(other)) && (
        released(m, path).reserved.contains(other) <==> m.reserved.contains(other)),
        reserved(m, count).max_threads == m.max_threads,
        dropped(m).max_threads == m.max_threads,
        committed(m, path).max_threads == m.max_threads,
        claimed(m, path).max_threads == m.max_threads,
        released(m, path).max_threads == m.max_threads,
        finished(m).max_threads == m.max_threads,
{
}

} // verus!
