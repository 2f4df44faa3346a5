//! Shutting agents down: one, a tree of them, and the subtrees of a spawn
//! transaction until nothing in them is left.

use crate::text_order::{insert_all_in_order, insert_in_order};
use vstd::prelude::*;

verus! {

use crate::history::texts;
use crate::text_order::{a_list_has_its_texts, in_text_order, text_less, text_set};

/// Texts with `; ` between them.
pub open spec fn joined_failures(failures: Seq<Seq<char>>) -> Seq<char>
    decreases failures.len(),
{
    if failures.len() == 0 {
        Seq::empty()
    } else if failures.len() == 1 {
        failures[0]
    } else {
        joined_failures(failures.drop_last()) + "; "@ + failures.last()
    }
}

fn join_failures(failures: &Vec<String>) -> (r: String)
    ensures
        r@ == joined_failures(texts(failures@)),
{
    let ghost all = texts(failures@);
    let mut text = String::new();
    let mut i: usize = 0;
    assert(all.take(0) =~= Seq::empty());
    assert(text@ =~= joined_failures(all.take(0)));
    while i < failures.len()
        invariant
            i <= failures@.len(),
            all == texts(failures@),
            text@ == joined_failures(all.take(i as int)),
        decreases failures@.len() - i,
    {
        proof {
            let upto = all.take(i + 1);
            assert(upto.drop_last() =~= all.take(i as int));
            assert(upto.last() == failures@[i as int]@);
        }
        if i > 0 {
            text.append("; ");
        }
        text.append(failures[i].as_str());
        proof {
            if i == 0 {
                assert(text@ =~= all.take(1)[0]);
            }
        }
        i = i + 1;
    }
    assert(all.take(i as int) =~= all);
    text
}

/// The outcome of shutting one agent down, given what failed on the way.
pub fn agent_shutdown_outcome(agent_id: &str, failures: &Vec<String>) -> (r: Result<(), String>)
    ensures
        match r {
            Ok(()) => failures@.len() == 0,
            Err(message) => failures@.len() > 0 && message@ == "agent "@ + agent_id@
                + " shutdown completed with errors: "@ + joined_failures(texts(failures@)),
        },
{
    if failures.len() == 0 {
        return Ok(());
    }
    let mut message = String::from_str("agent ");
    message.append(agent_id);
    message.append(" shutdown completed with errors: ");
    message.append(join_failures(failures).as_str());
    Err(message)
}

/// Why an agent could not be reached.
#[derive(Debug, PartialEq, Eq)]
pub enum AgentError {
    ThreadNotFound,
    InternalAgentDied,
    Other(String),
}

/// Whether an error says that the agent is gone.
pub open spec fn is_gone(error: AgentError) -> bool {
    error is ThreadNotFound || error is InternalAgentDied
}

fn says_gone(error: &AgentError) -> (r: bool)
    ensures
        r == is_gone(*error),
{
    match error {
        AgentError::ThreadNotFound => true,
        AgentError::InternalAgentDied => true,
        AgentError::Other(_) => false,
    }
}

/// How the end of a spawn edge is recorded.
#[derive(Clone, Copy, Debug, PartialEq, Eq, Structural)]
pub enum EdgeWrite {
    /// Not at all.
    Skip,
    /// A failure is only noted.
    BestEffort,
    /// A failure ends the call.
    Required,
}

/// How the edge of an agent that is closed is recorded: `found` says whether
/// its thread is live and ephemeral, or why it was not found.
pub fn close_edge_write(found: Result<bool, AgentError>, known_agent: bool, has_store: bool) -> (r:
    EdgeWrite)
    ensures
        r == if !has_store {
            EdgeWrite::Skip
        } else {
            match found {
                Ok(ephemeral) => if ephemeral {
                    EdgeWrite::Skip
                } else {
                    EdgeWrite::BestEffort
                },
                Err(error) => if known_agent && error is ThreadNotFound {
                    EdgeWrite::Required
                } else {
                    EdgeWrite::Skip
                },
            }
        },
{
    if !has_store {
        return EdgeWrite::Skip;
    }
    match found {
        Ok(ephemeral) => {
            if ephemeral {
                EdgeWrite::Skip
            } else {
                EdgeWrite::BestEffort
            }
        },
        Err(AgentError::ThreadNotFound) => {
            if known_agent {
                EdgeWrite::Required
            } else {
                EdgeWrite::Skip
            }
        },
        Err(_) => EdgeWrite::Skip,
    }
}

/// The answer to closing an agent: one that was known and is gone is closed.
pub fn close_result(known_agent: bool, result: Result<String, AgentError>) -> (r: Result<
    String,
    AgentError,
>)
    ensures
        match result {
            Err(error) => if known_agent && is_gone(error) {
                r matches Ok(text) && text@.len() == 0
            } else {
                r == result
            },
            Ok(_) => r == result,
        },
{
    match result {
        Err(error) => {
            if known_agent && says_gone(&error) {
                Ok(String::new())
            } else {
                Err(error)
            }
        },
        Ok(text) => Ok(text),
    }
}

/// What follows from shutting a descendant down.
pub fn descendant_result(result: Result<String, AgentError>) -> (r: Result<(), AgentError>)
    ensures
        match result {
            Err(error) => if is_gone(error) {
                r is Ok
            } else {
                r == Err::<(), AgentError>(error)
            },
            Ok(_) => r is Ok,
        },
{
    match result {
        Err(error) => {
            if says_gone(&error) {
                Ok(())
            } else {
                Err(error)
            }
        },
        Ok(_) => Ok(()),
    }
}

/// What is done next for the subtrees of a transaction.
#[derive(Clone, Copy, Debug, PartialEq, Eq, Structural)]
pub enum ShutdownNext {
    /// Look for descendants again.
    CollectAgain,
    /// Look for children that are still open.
    Verify,
    /// Nothing is left.
    Finish,
}

/// The subtrees of a transaction while they are shut down.
pub struct SubtreeShutdown {
    threads: Vec<String>,
    failures: Vec<String>,
    edge_close_failed: bool,
    has_store: bool,
}

/// The model of a [`SubtreeShutdown`].
#[verifier::ext_equal]
pub ghost struct ShutdownModel {
    pub threads: Set<Seq<char>>,
    pub failures: Seq<Seq<char>>,
    pub edge_close_failed: bool,
    pub has_store: bool,
}

impl View for SubtreeShutdown {
    type V = ShutdownModel;

    closed spec fn view(&self) -> ShutdownModel {
        ShutdownModel {
            threads: text_set(self.threads@),
            failures: texts(self.failures@),
            edge_close_failed: self.edge_close_failed,
            has_store: self.has_store,
        }
    }
}

/// The message of a failure of a thread.
pub open spec fn thread_failure(thread: Seq<char>, what: Seq<char>, error: Seq<char>) -> Seq<char> {
    thread + ": "@ + what + error
}

/// The messages of failures of threads.
pub open spec fn thread_failures(what: Seq<char>, failed: Seq<(String, String)>) -> Seq<Seq<char>> {
    failed.map_values(|f: (String, String)| thread_failure(f.0@, what, f.1@))
}

/// The edges of the current threads were closed, but for those that failed.
pub open spec fn closing_step(s: ShutdownModel, failed: Seq<(String, String)>) -> ShutdownModel {
    ShutdownModel {
        failures: s.failures + thread_failures("failed to close persisted spawn edge: "@, failed),
        edge_close_failed: failed.len() > 0,
        ..s
    }
}

/// The live threads were shut down, but for those that failed.
pub open spec fn live_step(s: ShutdownModel, live: nat, failed: Seq<(String, String)>) -> (
    ShutdownModel,
    ShutdownNext,
) {
    (
        ShutdownModel { failures: s.failures + thread_failures(""@, failed), ..s },
        if live > 0 {
            ShutdownNext::CollectAgain
        } else if s.has_store {
            ShutdownNext::Verify
        } else {
            ShutdownNext::Finish
        },
    )
}

/// The threads were asked for children that are still open.
pub open spec fn verify_step(
    s: ShutdownModel,
    open: Seq<String>,
    failed: Seq<(String, String)>,
) -> (ShutdownModel, ShutdownNext) {
    (
        ShutdownModel {
            threads: s.threads.union(text_set(open)),
            failures: s.failures + thread_failures(
                "failed to verify persisted spawn children: "@,
                failed,
            ),
            ..s
        },
        if open.len() > 0 && !s.edge_close_failed {
            ShutdownNext::CollectAgain
        } else {
            ShutdownNext::Finish
        },
    )
}

/// A shutdown that ends without a failure ends at a fixed point: its last round
/// found nothing live, closed every edge, and found no child that is open.
pub proof fn a_clean_shutdown_leaves_nothing(
    s: ShutdownModel,
    unclosed: Seq<(String, String)>,
    live: nat,
    unstopped: Seq<(String, String)>,
    open: Seq<String>,
    unasked: Seq<(String, String)>,
)
    ensures
        ({
            let closed = closing_step(s, unclosed);
            let (stopped, next) = live_step(closed, live, unstopped);
            let (verified, last) = verify_step(stopped, open, unasked);
            &&& (next is Finish && stopped.failures.len() == 0) ==> live == 0
            &&& (next is Verify && last is Finish && verified.failures.len() == 0) ==> {
                &&& live == 0
                &&& open.len() == 0
                &&& unclosed.len() == 0
                &&& unasked.len() == 0
            }
        }),
{
    let closed = closing_step(s, unclosed);
    let stopped = live_step(closed, live, unstopped).0;
    assert(stopped.failures.len() == s.failures.len() + unclosed.len() + unstopped.len());
}

/// A list in order with the given texts.
pub open spec fn lists_in_order(list: Seq<String>, set: Set<Seq<char>>) -> bool {
    in_text_order(list) && text_set(list) == set
}

impl SubtreeShutdown {
    pub closed spec fn wf(&self) -> bool {
        in_text_order(self.threads@)
    }

    /// Begins to shut subtrees down. `has_store` says whether spawn edges are
    /// persisted.
    pub fn new(has_store: bool) -> (r: Self)
        ensures
            r.wf(),
            r@ == (ShutdownModel {
                threads: Set::empty(),
                failures: Seq::empty(),
                edge_close_failed: false,
                has_store,
            }),
    {
        let r = SubtreeShutdown {
            threads: Vec::new(),
            failures: Vec::new(),
            edge_close_failed: false,
            has_store,
        };
        assert(text_set(r.threads@) =~= Set::empty());
        assert(texts(r.failures@) =~= Seq::empty());
        r
    }

    fn fail(&mut self, thread: &str, what: &str, error: &str)
        requires
            old(self).wf(),
        ensures
            final(self).wf(),
            final(self)@ == (ShutdownModel {
                failures: old(self)@.failures.push(thread_failure(thread@, what@, error@)),
                ..old(self)@
            }),
    {
        let ghost before = self@;
        let mut message = String::from_str(thread);
        message.append(": ");
        message.append(what);
        message.append(error);
        self.failures.push(message);
        assert(texts(self.failures@) =~= before.failures.push(message@));
    }

    fn fail_all(&mut self, what: &str, failed: &Vec<(String, String)>)
        requires
            old(self).wf(),
        ensures
            final(self).wf(),
            final(self)@ == (ShutdownModel {
                failures: old(self)@.failures + thread_failures(what@, failed@),
                ..old(self)@
            }),
    {
        let ghost before = self@;
        let ghost messages = thread_failures(what@, failed@);
        let mut i: usize = 0;
        assert(before.failures + messages.take(0) =~= before.failures);
        while i < failed.len()
            invariant
                i <= failed@.len(),
                self.wf(),
                messages == thread_failures(what@, failed@),
                self@ == (ShutdownModel {
                    failures: before.failures + messages.take(i as int),
                    ..before
                }),
            decreases failed@.len() - i,
        {
            self.fail(failed[i].0.as_str(), what, failed[i].1.as_str());
            assert((before.failures + messages.take(i as int)).push(messages[i as int])
                =~= before.failures + messages.take(i + 1));
            i = i + 1;
        }
        assert(messages.take(i as int) =~= messages);
    }

    /// A root's descendants: those whose edges are persisted, or why they could
    /// not be loaded (nothing where edges are not persisted), and those that
    /// are live.
    pub fn collected(
        &mut self,
        root: &str,
        persisted: Option<Result<Vec<String>, String>>,
        live: &Vec<String>,
    )
        requires
            old(self).wf(),
        ensures
            final(self).wf(),
            final(self)@ == (ShutdownModel {
                threads: (match persisted {
                    Some(Ok(found)) => old(self)@.threads.insert(root@).union(text_set(found@)),
                    _ => old(self)@.threads.insert(root@),
                }).union(text_set(live@)),
                failures: match persisted {
                    Some(Err(error)) => old(self)@.failures.push(
                        thread_failure(
                            root@,
                            "failed to load persisted spawn descendants: "@,
                            error@,
                        ),
                    ),
                    _ => old(self)@.failures,
                },
                ..old(self)@
            }),
    {
        insert_in_order(&mut self.threads, root.to_owned());
        match persisted {
            Some(Ok(found)) => {
                insert_all_in_order(&mut self.threads, &found);
            },
            Some(Err(error)) => {
                self.fail(root, "failed to load persisted spawn descendants: ", error.as_str());
            },
            None => {},
        }
        insert_all_in_order(&mut self.threads, live);
    }

    /// The threads of the transaction, in order.
    pub fn current_threads(&self) -> (r: Vec<String>)
        requires
            self.wf(),
        ensures
            lists_in_order(r@, self@.threads),
    {
        crate::history::copy_texts(&self.threads)
    }

    /// The edges of the current threads were closed, but for those that failed.
    pub fn edges_closed(&mut self, failed: &Vec<(String, String)>)
        requires
            old(self).wf(),
        ensures
            final(self).wf(),
            final(self)@ == closing_step(old(self)@, failed@),
    {
        self.fail_all("failed to close persisted spawn edge: ", failed);
        self.edge_close_failed = failed.len() > 0;
    }

    /// The live threads were shut down, but for those that failed. As long as
    /// there were some, descendants are looked for again.
    pub fn live_shut_down(&mut self, live: usize, failed: &Vec<(String, String)>) -> (r:
        ShutdownNext)
        requires
            old(self).wf(),
        ensures
            final(self).wf(),
            (final(self)@, r) == live_step(old(self)@, live as nat, failed@),
    {
        self.fail_all("", failed);
        if live > 0 {
            ShutdownNext::CollectAgain
        } else if self.has_store {
            ShutdownNext::Verify
        } else {
            ShutdownNext::Finish
        }
    }

    /// The children that are still open, and the threads that could not be
    /// asked. Open children are shut down too, unless their edges cannot be
    /// closed.
    pub fn verified(&mut self, open: &Vec<String>, failed: &Vec<(String, String)>) -> (r:
        ShutdownNext)
        requires
            old(self).wf(),
        ensures
            final(self).wf(),
            (final(self)@, r) == verify_step(old(self)@, open@, failed@),
    {
        self.fail_all("failed to verify persisted spawn children: ", failed);
        insert_all_in_order(&mut self.threads, open);
        if open.len() > 0 && !self.edge_close_failed {
            ShutdownNext::CollectAgain
        } else {
            ShutdownNext::Finish
        }
    }

    /// The outcome.
    pub fn finish(self) -> (r: Result<(), String>)
        ensures
            match r {
                Ok(()) => self@.failures.len() == 0,
                Err(message) => self@.failures.len() > 0 && message@
                    == "spine.spawn subtree shutdown completed with errors: "@ + joined_failures(
                    self@.failures,
                ),
            },
    {
        if self.failures.len() == 0 {
            return Ok(());
        }
        let mut message = String::from_str("spine.spawn subtree shutdown completed with errors: ");
        message.append(join_failures(&self.failures).as_str());
        Err(message)
    }
}

/// Every failure is in the message that joins them, in order.
pub proof fn failures_are_joined(above: Seq<Seq<char>>, failure: Seq<char>)
    ensures
        joined_failures(seq![failure]) == failure,
        above.len() > 0 ==> joined_failures(above.push(failure)) == joined_failures(above) + seq![
            ';',
            ' ',
        ] + failure,
        joined_failures(Seq::empty()).len() == 0,
{
    reveal_strlit("; ");
    assert("; "@ =~= seq![';', ' ']);
    assert(above.push(failure).drop_last() =~= above);
}

/// An agent is gone where its thread is not found or it died inside, and for no
/// other reason.
pub proof fn when_an_agent_is_gone(error: AgentError)
    ensures
        is_gone(error) <==> error is ThreadNotFound || error is InternalAgentDied,
        error is Other ==> !is_gone(error),
{
}

/// Each step of a shutdown notes every thread that failed, with what failed and
/// why, behind the failures that there were.
pub proof fn failures_are_noted(
    s: ShutdownModel,
    failed: Seq<(String, String)>,
    open: Seq<String>,
    live: nat,
    i: int,
)
    requires
        0 <= i < failed.len(),
    ensures
        ({
            let n = s.failures.len() as int;
            let closed = closing_step(s, failed);
            let stopped = live_step(s, live, failed).0;
            let verified = verify_step(s, open, failed).0;
            &&& closed.failures.len() == n + failed.len() && closed.failures.take(n) == s.failures
            &&& closed.failures[n + i] == failed[i].0@ + ": "@
                + "failed to close persisted spawn edge: "@ + failed[i].1@
            &&& closed.edge_close_failed
            &&& stopped.failures.len() == n + failed.len() && stopped.failures.take(n)
                == s.failures
            &&& stopped.failures[n + i] == failed[i].0@ + ": "@ + ""@ + failed[i].1@
            &&& verified.failures.len() == n + failed.len() && verified.failures.take(n)
                == s.failures
            &&& verified.failures[n + i] == failed[i].0@ + ": "@
                + "failed to verify persisted spawn children: "@ + failed[i].1@
        }),
{
    let n = s.failures.len() as int;
    assert(closing_step(s, failed).failures.take(n) =~= s.failures);
    assert(live_step(s, live, failed).0.failures.take(n) =~= s.failures);
    assert(verify_step(s, open, failed).0.failures.take(n) =~= s.failures);
}

/// What follows each step: while something was live, descendants are looked for
/// again; then open children are asked for where edges are stored, and looked for
/// again where there are any and their edges can be closed.
pub proof fn what_follows_each_step(
    s: ShutdownModel,
    failed: Seq<(String, String)>,
    open: Seq<String>,
    live: nat,
    thread: Seq<char>,
)
    ensures
        live > 0 ==> live_step(s, live, failed).1 == ShutdownNext::CollectAgain,
        live == 0 && s.has_store ==> live_step(s, live, failed).1 == ShutdownNext::Verify,
        live == 0 && !s.has_store ==> live_step(s, live, failed).1 == ShutdownNext::Finish,
        open.len() > 0 && !s.edge_close_failed ==> verify_step(s, open, failed).1
            == ShutdownNext::CollectAgain,
        open.len() == 0 || s.edge_close_failed ==> verify_step(s, open, failed).1
            == ShutdownNext::Finish,
        failed.len() == 0 ==> !closing_step(s, failed).edge_close_failed,
        closing_step(s, failed).threads == s.threads,
        live_step(s, live, failed).0.threads == s.threads,
        verify_step(s, open, failed).0.threads.contains(thread) <==> s.threads.contains(thread)
            || exists|k: int| 0 <= k < open.len() && (#[trigger] open[k])@ == thread,
{
}

/// Threads are listed in the order of their names, each once, and all of them.
pub proof fn threads_are_listed_in_order(list: Seq<String>, set: Set<Seq<char>>, i: int, j: int)
    requires
        lists_in_order(list, set),
    ensures
        0 <= i < j < list.len() ==> text_less(list[i]@, list[j]@),
        forall|text: Seq<char>| #[trigger]
            set.contains(text) <==> exists|k: int| 0 <= k < list.len() && (#[trigger] list[k])@ == text,
{
    assert forall|text: Seq<char>| #[trigger]
        set.contains(text) <==> exists|k: int| 0 <= k < list.len() && (#[trigger] list[k])@ == text by {
        a_list_has_its_texts(list, text);
    }
}

} // verus!
