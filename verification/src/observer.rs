//! What the session's observers are told of the task tree.

use crate::coordinator::NodeKind;
use crate::fragments::{NodeStatus, SpawnOutcome};
use crate::memory_projection::SpinetreeMemoryProjectionEntry;
use crate::rollout_source::SpinetreeUserMessageProjectionEntry;
use vstd::prelude::*;

verus! {

use crate::shapes::text_view;

/// Why the pressure of a node is not known.
#[derive(Clone, Copy, Debug, PartialEq, Eq, Structural)]
pub enum ContextPressureProblem {
    MissingCurrentUsage,
    MissingOpenContextBaseline,
    CoordinateMismatch,
}

#[derive(Clone, Copy, Debug, PartialEq, Eq, Structural)]
pub struct ContextPressure {
    pub open_input_tokens: Option<i64>,
    pub current_input_tokens: Option<i64>,
    pub context_tokens: Option<i64>,
    pub problem: Option<ContextPressureProblem>,
}

/// A node as observers see it.
#[derive(Debug, PartialEq, Eq)]
pub struct SpineTreeNodeSnapshot {
    pub node_id: String,
    pub parent_id: Option<String>,
    pub kind: NodeKind,
    pub status: NodeStatus,
    pub summary: Option<String>,
    pub memory_summary: Option<String>,
    pub spawn_outcome: Option<SpawnOutcome>,
    pub start: u64,
    pub end: Option<u64>,
    pub context_pressure: Option<ContextPressure>,
}

/// The tree as the runtime hands it out.
#[derive(Debug)]
pub struct TreeSnapshot {
    pub last_boundary: Option<u64>,
    pub cursor: String,
    pub nodes: Vec<SpineTreeNodeSnapshot>,
}

/// The tree as it is published.
#[derive(Debug)]
pub struct SpineTreeUpdateEvent {
    pub snapshot_seq: u64,
    pub active_node_id: String,
    pub nodes: Vec<SpineTreeNodeSnapshot>,
    pub settled_spawn_call_ids: Vec<String>,
}

impl SpineTreeUpdateEvent {
    /// Whether the event publishes a tree and the spawn calls that settled.
    pub open spec fn publishes(&self, snapshot: TreeSnapshot, settled: Seq<String>) -> bool {
        &&& self.snapshot_seq == (match snapshot.last_boundary {
            Some(boundary) => boundary,
            None => 0,
        })
        &&& self.active_node_id@ == snapshot.cursor@
        &&& self.nodes@ == snapshot.nodes@
        &&& self.settled_spawn_call_ids@ == settled
    }
}

/// The event of a tree. Before the first boundary its number is zero.
pub fn tree_update_from_parts(snapshot: TreeSnapshot, settled_spawn_call_ids: Vec<String>) -> (r:
    SpineTreeUpdateEvent)
    ensures
        r.publishes(snapshot, settled_spawn_call_ids@),
{
    SpineTreeUpdateEvent {
        snapshot_seq: match snapshot.last_boundary {
            Some(boundary) => boundary,
            None => 0,
        },
        active_node_id: snapshot.cursor,
        nodes: snapshot.nodes,
        settled_spawn_call_ids,
    }
}

/// An event with the name of the turn that it belongs to.
#[derive(Debug)]
pub struct TreeEvent {
    pub id: String,
    pub update: SpineTreeUpdateEvent,
}

/// What is written down of the memories and of the user's messages.
#[derive(Debug)]
pub struct MemoryProjection {
    pub entries: Vec<SpinetreeMemoryProjectionEntry>,
    pub user_messages: Vec<SpinetreeUserMessageProjectionEntry>,
}

/// What is sent out.
#[derive(Debug)]
pub struct Publication {
    pub tree: Option<TreeEvent>,
    pub memory: Option<MemoryProjection>,
}

/// Whom the session tells of its tree.
#[derive(Debug)]
pub struct SpineObserver {
    pub tells_tree: bool,
    pub writes_memory: bool,
    pub fallback_event_id: String,
    pub jit_enabled: bool,
}

/// The last turn that an item names.
pub open spec fn last_turn(turn_ids: Seq<Option<String>>) -> Option<Seq<char>>
    decreases turn_ids.len(),
{
    if turn_ids.len() == 0 {
        None
    } else {
        match turn_ids.last() {
            Some(id) => Some(id@),
            None => last_turn(turn_ids.drop_last()),
        }
    }
}

/// Finds the last turn that an item names.
pub fn last_turn_id(turn_ids: &Vec<Option<String>>) -> (r: Option<String>)
    ensures
        text_view(r) == last_turn(turn_ids@),
{
    let mut n: usize = turn_ids.len();
    assert(turn_ids@.take(n as int) =~= turn_ids@);
    while n > 0
        invariant
            n <= turn_ids@.len(),
            last_turn(turn_ids@) == last_turn(turn_ids@.take(n as int)),
        decreases n,
    {
        proof {
            let part = turn_ids@.take(n as int);
            assert(part.last() == turn_ids@[n - 1]);
            assert(part.drop_last() =~= turn_ids@.take(n - 1));
        }
        if let Some(id) = &turn_ids[n - 1] {
            return Some(id.clone());
        }
        n = n - 1;
    }
    None
}

impl SpineObserver {
    /// What the event of a turn is called.
    pub open spec fn event_name(&self, turn: Option<Seq<char>>) -> Seq<char> {
        match turn {
            Some(id) => id,
            None => self.fallback_event_id@,
        }
    }

    fn tree_event(
        &self,
        snapshot: TreeSnapshot,
        event_id: Option<String>,
        settled_spawn_call_ids: Vec<String>,
    ) -> (r: Option<TreeEvent>)
        ensures
            if self.tells_tree {
                r matches Some(event) && event.id@ == self.event_name(text_view(event_id))
                    && event.update.publishes(snapshot, settled_spawn_call_ids@)
            } else {
                r is None
            },
    {
        if !self.tells_tree {
            return None;
        }
        let id = match event_id {
            Some(id) => id,
            None => self.fallback_event_id.clone(),
        };
        Some(TreeEvent { id, update: tree_update_from_parts(snapshot, settled_spawn_call_ids) })
    }

    /// What is sent out after a commit. Without just-in-time contexts, nothing.
    pub fn publish_committed(
        &self,
        snapshot: TreeSnapshot,
        turn_ids: &Vec<Option<String>>,
        entries: Vec<SpinetreeMemoryProjectionEntry>,
        user_messages: Vec<SpinetreeUserMessageProjectionEntry>,
        settled_spawn_call_ids: Vec<String>,
    ) -> (r: Publication)
        ensures
            if self.jit_enabled && self.tells_tree {
                r.tree matches Some(event) && event.id@ == self.event_name(last_turn(turn_ids@))
                    && event.update.publishes(snapshot, settled_spawn_call_ids@)
            } else {
                r.tree is None
            },
            if self.jit_enabled && self.writes_memory {
                r.memory matches Some(memory) && memory.entries@ == entries@
                    && memory.user_messages@ == user_messages@
            } else {
                r.memory is None
            },
    {
        if !self.jit_enabled {
            return Publication { tree: None, memory: None };
        }
        let tree = self.tree_event(snapshot, last_turn_id(turn_ids), settled_spawn_call_ids);
        let memory = if self.writes_memory {
            Some(MemoryProjection { entries, user_messages })
        } else {
            None
        };
        Publication { tree, memory }
    }

    /// What is sent out after a token count.
    pub fn publish_usage(&self, snapshot: TreeSnapshot, turn_id: String) -> (r: Option<TreeEvent>)
        ensures
            if self.jit_enabled && self.tells_tree {
                r matches Some(event) && event.id@ == turn_id@ && event.update.publishes(
                    snapshot,
                    Seq::empty(),
                )
            } else {
                r is None
            },
    {
        if !self.jit_enabled {
            return None;
        }
        self.tree_event(snapshot, Some(turn_id), Vec::new())
    }
}

/// The last turn is that of the last item that names one.
pub proof fn the_last_named_turn_counts(turn_ids: Seq<Option<String>>, i: int)
    requires
        0 <= i < turn_ids.len(),
        turn_ids[i] is Some,
        forall|j: int| i < j < turn_ids.len() ==> #[trigger] turn_ids[j] is None,
    ensures
        last_turn(turn_ids) == Some(turn_ids[i]->0@),
    decreases turn_ids.len(),
{
    if i < turn_ids.len() - 1 {
        let rest = turn_ids.drop_last();
        assert(turn_ids[turn_ids.len() - 1] is None);
        assert(rest[i] == turn_ids[i]);
        assert forall|j: int| i < j < rest.len() implies #[trigger] rest[j] is None by {
            assert(rest[j] == turn_ids[j]);
        }
        the_last_named_turn_counts(rest, i);
    }
}

/// Where no item names a turn there is none.
pub proof fn unnamed_turns_have_no_last(turn_ids: Seq<Option<String>>)
    requires
        forall|j: int| 0 <= j < turn_ids.len() ==> #[trigger] turn_ids[j] is None,
    ensures
        last_turn(turn_ids) is None,
    decreases turn_ids.len(),
{
    if turn_ids.len() > 0 {
        assert(turn_ids[turn_ids.len() - 1] is None);
        assert forall|j: int| 0 <= j < turn_ids.drop_last().len() implies #[trigger] turn_ids.drop_last()[j] is None by {
            assert(turn_ids.drop_last()[j] == turn_ids[j]);
        }
        unnamed_turns_have_no_last(turn_ids.drop_last());
    }
}

/// An event that publishes a tree has its cursor, all of its nodes and its
/// boundary, and the settled calls; it is called after its turn, or by the
/// observer's own name where there is none.
pub proof fn an_event_shows_the_whole_tree(
    observer: SpineObserver,
    event: SpineTreeUpdateEvent,
    snapshot: TreeSnapshot,
    settled: Seq<String>,
    turn: Option<Seq<char>>,
)
    requires
        event.publishes(snapshot, settled),
    ensures
        snapshot.last_boundary matches Some(boundary) ==> event.snapshot_seq == boundary,
        snapshot.last_boundary is None ==> event.snapshot_seq == 0,
        event.active_node_id@ == snapshot.cursor@,
        event.nodes@ == snapshot.nodes@,
        event.settled_spawn_call_ids@ == settled,
        turn matches Some(id) ==> observer.event_name(turn) == id,
        turn is None ==> observer.event_name(turn) == observer.fallback_event_id@,
{
}

} // verus!
