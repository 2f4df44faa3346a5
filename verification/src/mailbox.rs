//! Messages that are on their way into a mailbox, and the agents whose messages
//! are no longer taken.

use crate::spawn_tasks::{author_is_in_transaction_subtree, path_is_in_subtree};
use crate::text::same_text;
use crate::text_map::TextMap;
use vstd::prelude::*;

verus! {

use crate::spawn_tasks::{in_subtree, in_subtrees};
use crate::text_map::has_key;

/// A message that was submitted and has not arrived.
#[derive(Debug, PartialEq, Eq)]
pub struct TrackedMailboxSubmission {
    pub author: String,
    pub cancelled: bool,
}

/// What is tracked of submissions.
pub struct MailboxSubmissionTracker {
    submissions: TextMap<TrackedMailboxSubmission>,
    /// How many cancellations hold for the agents at and below a path.
    cancelled_author_subtrees: TextMap<usize>,
    revision: u64,
}

/// The model of a [`MailboxSubmissionTracker`]: by submission its author and
/// whether it is cancelled, and by path its cancellations.
#[verifier::ext_equal]
pub ghost struct TrackerModel {
    pub submissions: Map<Seq<char>, (Seq<char>, bool)>,
    pub cancelled: Map<Seq<char>, usize>,
    pub revision: u64,
}

pub open spec fn submission_model(s: TrackedMailboxSubmission) -> (Seq<char>, bool) {
    (s.author@, s.cancelled)
}

impl View for MailboxSubmissionTracker {
    type V = TrackerModel;

    closed spec fn view(&self) -> TrackerModel {
        TrackerModel {
            submissions: self.submissions@.map_values(
                |s: TrackedMailboxSubmission| submission_model(s),
            ),
            cancelled: self.cancelled_author_subtrees@,
            revision: self.revision,
        }
    }
}

/// The next revision.
pub open spec fn bumped(revision: u64) -> u64 {
    if revision == u64::MAX {
        0
    } else {
        (revision + 1) as u64
    }
}

/// Whether an agent's messages are no longer taken.
pub open spec fn is_cancelled_author(cancelled: Map<Seq<char>, usize>, author: Seq<char>) -> bool {
    exists|root: Seq<char>| #[trigger] cancelled.contains_key(root) && in_subtree(author, root)
}

/// How many cancellations hold for a path.
pub open spec fn count_of(cancelled: Map<Seq<char>, usize>, root: Seq<char>) -> nat {
    if cancelled.contains_key(root) {
        cancelled[root] as nat
    } else {
        0
    }
}

/// The cancellations with one more for each of some paths.
pub open spec fn raised(cancelled: Map<Seq<char>, usize>, roots: Seq<String>) -> Map<
    Seq<char>,
    usize,
>
    decreases roots.len(),
{
    if roots.len() == 0 {
        cancelled
    } else {
        let before = raised(cancelled, roots.drop_last());
        before.insert(roots.last()@, (count_of(before, roots.last()@) + 1) as usize)
    }
}

/// The cancellations with one less for each of some paths.
pub open spec fn lowered(cancelled: Map<Seq<char>, usize>, roots: Seq<String>) -> Map<
    Seq<char>,
    usize,
>
    decreases roots.len(),
{
    if roots.len() == 0 {
        cancelled
    } else {
        let before = lowered(cancelled, roots.drop_last());
        let count = count_of(before, roots.last()@);
        if count > 1 {
            before.insert(roots.last()@, (count - 1) as usize)
        } else {
            before.remove(roots.last()@)
        }
    }
}

/// A submission with its author's messages no longer taken, if they are not.
pub open spec fn recancelled(cancelled: Map<Seq<char>, usize>, s: (Seq<char>, bool)) -> (
    Seq<char>,
    bool,
) {
    (s.0, s.1 || is_cancelled_author(cancelled, s.0))
}

/// The tracker with a message submitted.
pub open spec fn submitted(m: TrackerModel, id: Seq<char>, author: Seq<char>) -> TrackerModel {
    TrackerModel {
        submissions: m.submissions.insert(id, (author, is_cancelled_author(m.cancelled, author))),
        cancelled: m.cancelled,
        revision: bumped(m.revision),
    }
}

/// The tracker with a submission gone.
pub open spec fn withdrawn(m: TrackerModel, id: Seq<char>) -> TrackerModel {
    TrackerModel {
        submissions: m.submissions.remove(id),
        cancelled: m.cancelled,
        revision: bumped(m.revision),
    }
}

/// The tracker with the agents below some paths cancelled.
pub open spec fn cancelled(m: TrackerModel, roots: Seq<String>) -> TrackerModel {
    let now = raised(m.cancelled, roots);
    let after = m.submissions.map_values(|s: (Seq<char>, bool)| recancelled(now, s));
    TrackerModel {
        submissions: after,
        cancelled: now,
        revision: if roots.len() > 0 || after != m.submissions {
            bumped(m.revision)
        } else {
            m.revision
        },
    }
}

/// Whether a submission that was not cancelled is by an agent at or below one
/// of some paths.
pub open spec fn awaits(m: TrackerModel, roots: Seq<String>) -> bool {
    exists|id: Seq<char>|
        #[trigger] m.submissions.contains_key(id) && !m.submissions[id].1 && in_subtrees(
            m.submissions[id].0,
            roots,
        )
}

/// How often a path occurs.
pub open spec fn occurrences(roots: Seq<String>, root: Seq<char>) -> nat
    decreases roots.len(),
{
    if roots.len() == 0 {
        0
    } else {
        occurrences(roots.drop_last(), root) + if roots.last()@ == root {
            1nat
        } else {
            0nat
        }
    }
}

/// Whether every path that is cancelled at all is cancelled at least once.
pub open spec fn counts_are_positive(cancelled: Map<Seq<char>, usize>) -> bool {
    forall|root: Seq<char>| #[trigger] cancelled.contains_key(root) ==> cancelled[root] > 0
}

/// Whether there is room to cancel some paths once more.
pub open spec fn has_room(cancelled: Map<Seq<char>, usize>, roots: Seq<String>) -> bool {
    forall|root: Seq<char>| #[trigger] cancelled.contains_key(root) ==> cancelled[root]
        + roots.len() <= usize::MAX
}

proof fn lemma_raised(cancelled: Map<Seq<char>, usize>, roots: Seq<String>)
    requires
        has_room(cancelled, roots),
        roots.len() <= usize::MAX,
    ensures
        forall|root: Seq<char>|
            count_of(#[trigger] raised(cancelled, roots), root) == count_of(cancelled, root)
                + occurrences(roots, root),
        forall|root: Seq<char>|
            #[trigger] raised(cancelled, roots).contains_key(root) ==> cancelled.contains_key(root)
                || occurrences(roots, root) > 0,
        forall|root: Seq<char>| occurrences(roots, root) <= roots.len(),
        counts_are_positive(cancelled) ==> counts_are_positive(raised(cancelled, roots)),
    decreases roots.len(),
{
    if roots.len() > 0 {
        let rest = roots.drop_last();
        assert(has_room(cancelled, rest));
        lemma_raised(cancelled, rest);
        let before = raised(cancelled, rest);
        let last = roots.last()@;
        assert(count_of(before, last) == count_of(cancelled, last) + occurrences(rest, last));
        assert(occurrences(rest, last) <= rest.len());
        assert forall|root: Seq<char>| count_of(#[trigger] raised(cancelled, roots), root)
            == count_of(cancelled, root) + occurrences(roots, root) by {
            assert(count_of(before, root) == count_of(cancelled, root) + occurrences(rest, root));
        }
        assert forall|root: Seq<char>| occurrences(roots, root) <= roots.len() by {
            assert(occurrences(rest, root) <= rest.len());
        }
    }
}

proof fn lemma_lowered(cancelled: Map<Seq<char>, usize>, roots: Seq<String>)
    requires
        counts_are_positive(cancelled),
    ensures
        counts_are_positive(lowered(cancelled, roots)),
        forall|root: Seq<char>|
            count_of(#[trigger] lowered(cancelled, roots), root) == if count_of(cancelled, root)
                >= occurrences(roots, root) {
                (count_of(cancelled, root) - occurrences(roots, root)) as nat
            } else {
                0
            },
    decreases roots.len(),
{
    if roots.len() > 0 {
        let rest = roots.drop_last();
        lemma_lowered(cancelled, rest);
        let before = lowered(cancelled, rest);
        let after = lowered(cancelled, roots);
        let last = roots.last()@;
        assert forall|root: Seq<char>| count_of(#[trigger] lowered(cancelled, roots), root)
            == if count_of(cancelled, root) >= occurrences(roots, root) {
            (count_of(cancelled, root) - occurrences(roots, root)) as nat
        } else {
            0
        } by {
            assert(count_of(before, root) == if count_of(cancelled, root) >= occurrences(
                rest,
                root,
            ) {
                (count_of(cancelled, root) - occurrences(rest, root)) as nat
            } else {
                0
            });
        }
        assert forall|root: Seq<char>| #[trigger] after.contains_key(root) implies after[root]
            > 0 by {
            if root != last {
                assert(before.contains_key(root));
            }
        }
    }
}

/// Releasing some paths undoes cancelling them, whatever else is cancelled.
pub proof fn releasing_undoes_cancelling(cancelled: Map<Seq<char>, usize>, roots: Seq<String>)
    requires
        counts_are_positive(cancelled),
        has_room(cancelled, roots),
        roots.len() <= usize::MAX,
    ensures
        lowered(raised(cancelled, roots), roots) == cancelled,
{
    lemma_raised(cancelled, roots);
    let up = raised(cancelled, roots);
    lemma_lowered(up, roots);
    let down = lowered(up, roots);
    assert forall|root: Seq<char>| #[trigger] down.dom().contains(root) implies
        cancelled.dom().contains(root) && down[root] == cancelled[root] by {
        assert(count_of(up, root) == count_of(cancelled, root) + occurrences(roots, root));
        assert(count_of(down, root) == count_of(cancelled, root));
        assert(down.contains_key(root));
    }
    assert forall|root: Seq<char>| #[trigger] cancelled.dom().contains(root) implies
        down.dom().contains(root) by {
        assert(cancelled.contains_key(root));
        assert(count_of(up, root) == count_of(cancelled, root) + occurrences(roots, root));
        assert(count_of(down, root) == count_of(cancelled, root));
    }
    assert(down =~= cancelled);
}

/// While an agent's messages are not taken, what it submits is cancelled from
/// the start, and no one waits for it.
pub proof fn late_messages_are_cancelled(m: TrackerModel, id: Seq<char>, author: Seq<char>)
    requires
        is_cancelled_author(m.cancelled, author),
    ensures
        submitted(m, id, author).submissions[id] == (author, true),
{
}

impl MailboxSubmissionTracker {
    pub closed spec fn wf(&self) -> bool {
        &&& self.submissions.wf()
        &&& self.cancelled_author_subtrees.wf()
        &&& counts_are_positive(self.cancelled_author_subtrees@)
    }

    /// Every cancellation counts.
    pub proof fn counts(&self)
        requires
            self.wf(),
        ensures
            counts_are_positive(self@.cancelled),
    {
    }

    /// A tracker that has seen nothing.
    pub fn new() -> (r: Self)
        ensures
            r.wf(),
            r@ == (TrackerModel {
                submissions: Map::empty(),
                cancelled: Map::empty(),
                revision: 0,
            }),
    {
        let r = MailboxSubmissionTracker {
            submissions: TextMap::new(),
            cancelled_author_subtrees: TextMap::new(),
            revision: 0,
        };
        assert(r@.submissions =~= Map::empty());
        r
    }

    fn bump_revision(&mut self)
        requires
            old(self).wf(),
        ensures
            final(self).wf(),
            final(self)@ == (TrackerModel { revision: bumped(old(self)@.revision), ..old(self)@ }),
    {
        self.revision = self.revision.wrapping_add(1);
    }

    fn cancelled_author(&self, author: &str) -> (r: bool)
        requires
            self.wf(),
        ensures
            r == is_cancelled_author(self@.cancelled, author@),
    {
        proof {
            self.cancelled_author_subtrees.list_is_the_map();
        }
        let ghost list = self.cancelled_author_subtrees.list();
        let ghost map = self.cancelled_author_subtrees@;
        let mut i: usize = 0;
        while i < self.cancelled_author_subtrees.len()
            invariant
                i <= list.len(),
                list == self.cancelled_author_subtrees.list(),
                map == self.cancelled_author_subtrees@,
                map == self@.cancelled,
                forall|k: int|
                    0 <= k < list.len() ==> map.contains_key((#[trigger] list[k]).0@),
                forall|key: Seq<char>| #[trigger] map.contains_key(key) ==> has_key(list, key),
                forall|k: int| 0 <= k < i ==> !in_subtree(author@, (#[trigger] list[k]).0@),
            decreases list.len() - i,
        {
            if path_is_in_subtree(author, self.cancelled_author_subtrees.key(i).as_str()) {
                assert(map.contains_key(list[i as int].0@));
                return true;
            }
            i = i + 1;
        }
        proof {
            assert forall|root: Seq<char>| #[trigger] map.contains_key(root) implies !in_subtree(
                author@,
                root,
            ) by {
                assert(has_key(list, root));
                let k = choose|k: int| 0 <= k < list.len() && (#[trigger] list[k]).0@ == root;
                assert(!in_subtree(author@, list[k].0@));
            }
        }
        false
    }

    /// A message was submitted.
    pub fn insert(&mut self, submission_id: String, author: String)
        requires
            old(self).wf(),
        ensures
            final(self).wf(),
            final(self)@ == submitted(old(self)@, submission_id@, author@),
    {
        let ghost before = self@;
        let cancelled = self.cancelled_author(author.as_str());
        let submission = TrackedMailboxSubmission { author, cancelled };
        self.submissions.insert(submission_id, submission);
        assert(self@.submissions =~= before.submissions.insert(
            submission_id@,
            submission_model(submission),
        ));
        self.bump_revision();
    }

    /// A submission arrived or was given up; another author's is left alone.
    pub fn remove(&mut self, submission_id: &str, author: &str)
        requires
            old(self).wf(),
        ensures
            final(self).wf(),
            final(self)@ == if old(self)@.submissions.contains_key(submission_id@) && old(
                self,
            )@.submissions[submission_id@].0 == author@ {
                withdrawn(old(self)@, submission_id@)
            } else {
                old(self)@
            },
    {
        let ghost before = self@;
        let matches = match self.submissions.get(submission_id) {
            Some(submission) => same_text(submission.author.as_str(), author),
            None => false,
        };
        if !matches {
            return;
        }
        self.submissions.remove(submission_id);
        assert(self@.submissions =~= before.submissions.remove(submission_id@));
        self.bump_revision();
    }

    /// Whether a submission by an agent at or below one of some paths is still
    /// awaited.
    pub fn has_matching(&self, roots: &Vec<String>) -> (r: bool)
        requires
            self.wf(),
        ensures
            r == awaits(self@, roots@),
    {
        proof {
            self.submissions.list_is_the_map();
        }
        let ghost list = self.submissions.list();
        let ghost map = self.submissions@;
        let ghost m = self@;
        let mut i: usize = 0;
        while i < self.submissions.len()
            invariant
                i <= list.len(),
                list == self.submissions.list(),
                map == self.submissions@,
                m == self@,
                m.submissions == map.map_values(
                    |s: TrackedMailboxSubmission| submission_model(s),
                ),
                forall|k: int|
                    0 <= k < list.len() ==> map.contains_key((#[trigger] list[k]).0@)
                        && map[list[k].0@] == list[k].1,
                forall|key: Seq<char>| #[trigger] map.contains_key(key) ==> has_key(list, key),
                forall|k: int|
                    0 <= k < i ==> (#[trigger] list[k]).1.cancelled || !in_subtrees(
                        list[k].1.author@,
                        roots@,
                    ),
            decreases list.len() - i,
        {
            let submission = self.submissions.value(i);
            if !submission.cancelled && author_is_in_transaction_subtree(
                submission.author.as_str(),
                roots,
            ) {
                proof {
                    let id = list[i as int].0@;
                    assert(m.submissions.contains_key(id));
                    assert(m.submissions[id] == submission_model(*submission));
                }
                return true;
            }
            i = i + 1;
        }
        proof {
            assert forall|id: Seq<char>| #[trigger] m.submissions.contains_key(id) implies
                m.submissions[id].1 || !in_subtrees(m.submissions[id].0, roots@) by {
                assert(map.contains_key(id));
                let k = choose|k: int| 0 <= k < list.len() && (#[trigger] list[k]).0@ == id;
                assert(list[k].1.cancelled || !in_subtrees(list[k].1.author@, roots@));
            }
        }
        false
    }

    fn raise(&mut self, roots: &Vec<String>)
        requires
            old(self).wf(),
            has_room(old(self)@.cancelled, roots@),
        ensures
            final(self).wf(),
            final(self)@ == (TrackerModel {
                cancelled: raised(old(self)@.cancelled, roots@),
                ..old(self)@
            }),
    {
        let ghost before = self@;
        let mut i: usize = 0;
        assert(roots@.take(0) =~= Seq::empty());
        while i < roots.len()
            invariant
                i <= roots@.len(),
                self.wf(),
                has_room(before.cancelled, roots@),
                self@ == (TrackerModel {
                    cancelled: raised(before.cancelled, roots@.take(i as int)),
                    ..before
                }),
            decreases roots@.len() - i,
        {
            proof {
                let upto = roots@.take(i + 1);
                assert(upto.drop_last() =~= roots@.take(i as int));
                assert(upto.last() == roots@[i as int]);
                assert(has_room(before.cancelled, roots@.take(i as int)));
                lemma_raised(before.cancelled, roots@.take(i as int));
                assert(count_of(
                    raised(before.cancelled, roots@.take(i as int)),
                    roots@[i as int]@,
                ) == count_of(before.cancelled, roots@[i as int]@) + occurrences(
                    roots@.take(i as int),
                    roots@[i as int]@,
                ));
                assert(occurrences(roots@.take(i as int), roots@[i as int]@) <= i);
            }
            let count = match self.cancelled_author_subtrees.get(roots[i].as_str()) {
                Some(count) => *count,
                None => 0,
            };
            self.cancelled_author_subtrees.insert(roots[i].clone(), count + 1);
            i = i + 1;
        }
        assert(roots@.take(i as int) =~= roots@);
    }

    /// No longer takes messages of the agents at and below some paths; what they
    /// have submitted is cancelled.
    pub fn cancel_author_subtrees(&mut self, roots: &Vec<String>)
        requires
            old(self).wf(),
            has_room(old(self)@.cancelled, roots@),
        ensures
            final(self).wf(),
            final(self)@ == cancelled(old(self)@, roots@),
    {
        let ghost before = self@;
        self.raise(roots);
        let ghost now = self@.cancelled;
        let ghost first = self.submissions@;
        let ghost first_list = self.submissions.list();
        proof {
            self.submissions.list_is_the_map();
        }
        let mut changed = roots.len() > 0;
        let mut i: usize = 0;
        let ghost mut altered: bool = false;
        while i < self.submissions.len()
            invariant
                i <= self.submissions.list().len(),
                self.wf(),
                self@.cancelled == now,
                self@.revision == before.revision,
                before.submissions == first.map_values(
                    |s: TrackedMailboxSubmission| submission_model(s),
                ),
                first_list.len() == self.submissions.list().len(),
                forall|k: int|
                    0 <= k < first_list.len() ==> (#[trigger] self.submissions.list()[k]).0
                        == first_list[k].0,
                forall|k: int|
                    i <= k < first_list.len() ==> #[trigger] self.submissions.list()[k]
                        == first_list[k],
                forall|k: int|
                    0 <= k < i ==> submission_model((#[trigger] self.submissions.list()[k]).1)
                        == recancelled(now, submission_model(first_list[k].1)),
                altered == exists|k: int|
                    0 <= k < i && recancelled(now, submission_model((#[trigger] first_list[k]).1))
                        != submission_model(first_list[k].1),
                changed == (roots@.len() > 0 || altered),
            decreases self.submissions.list().len() - i,
        {
            let author = self.submissions.value(i).author.clone();
            let was_cancelled = self.submissions.value(i).cancelled;
            assert(self.submissions.list()[i as int] == first_list[i as int]);
            if !was_cancelled && self.cancelled_author(author.as_str()) {
                self.submissions.set_value(
                    i,
                    TrackedMailboxSubmission { author, cancelled: true },
                );
                changed = true;
                proof {
                    altered = true;
                    assert(recancelled(now, submission_model(first_list[i as int].1))
                        != submission_model(first_list[i as int].1));
                }
            } else {
                assert(recancelled(now, submission_model(first_list[i as int].1))
                    == submission_model(first_list[i as int].1));
            }
            i = i + 1;
        }
        proof {
            self.submissions.list_is_the_map();
            let target = before.submissions.map_values(
                |s: (Seq<char>, bool)| recancelled(now, s),
            );
            let result = self@.submissions;
            let list = self.submissions.list();
            assert forall|id: Seq<char>| #[trigger] result.dom().contains(id) implies
                target.dom().contains(id) && result[id] == target[id] by {
                assert(self.submissions@.contains_key(id));
                let k = choose|k: int| 0 <= k < list.len() && (#[trigger] list[k]).0@ == id;
                assert(first_list[k].0 == list[k].0);
                assert(first.contains_key(first_list[k].0@));
            }
            assert forall|id: Seq<char>| #[trigger] target.dom().contains(id) implies
                result.dom().contains(id) by {
                assert(first.contains_key(id));
                let k = choose|k: int|
                    0 <= k < first_list.len() && (#[trigger] first_list[k]).0@ == id;
                assert(list[k].0 == first_list[k].0);
                assert(self.submissions@.contains_key(list[k].0@));
            }
            assert(result =~= target);
            if altered {
                let k = choose|k: int|
                    0 <= k < i && recancelled(now, submission_model((#[trigger] first_list[k]).1))
                        != submission_model(first_list[k].1);
                let id = first_list[k].0@;
                assert(first.contains_key(id));
                assert(target[id] != before.submissions[id]);
            } else {
                assert(target =~= before.submissions) by {
                    assert forall|id: Seq<char>| #[trigger] target.dom().contains(id) implies
                        target[id] == before.submissions[id] by {
                        assert(first.contains_key(id));
                        let k = choose|k: int|
                            0 <= k < first_list.len() && (#[trigger] first_list[k]).0@ == id;
                        assert(recancelled(now, submission_model(first_list[k].1))
                            == submission_model(first_list[k].1));
                    }
                }
            }
        }
        if changed {
            self.bump_revision();
        }
    }

    /// Lifts one cancellation of each of some paths.
    pub fn release_author_subtrees(&mut self, roots: &Vec<String>)
        requires
            old(self).wf(),
        ensures
            final(self).wf(),
            final(self)@ == (TrackerModel {
                cancelled: lowered(old(self)@.cancelled, roots@),
                ..old(self)@
            }),
    {
        let ghost before = self@;
        let mut i: usize = 0;
        assert(roots@.take(0) =~= Seq::empty());
        while i < roots.len()
            invariant
                i <= roots@.len(),
                self.wf(),
                self@ == (TrackerModel {
                    cancelled: lowered(before.cancelled, roots@.take(i as int)),
                    ..before
                }),
            decreases roots@.len() - i,
        {
            proof {
                let upto = roots@.take(i + 1);
                assert(upto.drop_last() =~= roots@.take(i as int));
                assert(upto.last() == roots@[i as int]);
            }
            let count = match self.cancelled_author_subtrees.get(roots[i].as_str()) {
                Some(count) => *count,
                None => 0,
            };
            if count > 1 {
                self.cancelled_author_subtrees.insert(roots[i].clone(), count - 1);
            } else {
                self.cancelled_author_subtrees.remove(roots[i].as_str());
            }
            i = i + 1;
        }
        assert(roots@.take(i as int) =~= roots@);
    }

    /// Takes out a submission that was cancelled; the answer is whether it was.
    pub fn take_cancelled(&mut self, submission_id: &str, author: &str) -> (r: bool)
        requires
            old(self).wf(),
        ensures
            final(self).wf(),
            r == (old(self)@.submissions.contains_key(submission_id@) && old(
                self,
            )@.submissions[submission_id@] == (author@, true)),
            final(self)@ == if r {
                withdrawn(old(self)@, submission_id@)
            } else {
                old(self)@
            },
    {
        let ghost before = self@;
        let cancelled = match self.submissions.get(submission_id) {
            Some(submission) => same_text(submission.author.as_str(), author)
                && submission.cancelled,
            None => false,
        };
        if cancelled {
            self.submissions.remove(submission_id);
            assert(self@.submissions =~= before.submissions.remove(submission_id@));
            self.bump_revision();
        }
        cancelled
    }

    /// The revision, which changes whenever a waiter has to look again.
    pub fn revision(&self) -> (r: u64)
        ensures
            r == self@.revision,
    {
        self.revision
    }
}

/// The paths with each one kept where it first occurs.
pub open spec fn first_occurrences(paths: Seq<String>) -> Seq<Seq<char>>
    decreases paths.len(),
{
    if paths.len() == 0 {
        Seq::empty()
    } else {
        let before = first_occurrences(paths.drop_last());
        if before.contains(paths.last()@) {
            before
        } else {
            before.push(paths.last()@)
        }
    }
}

/// The paths without repetitions.
pub fn deduplicated_paths(paths: &Vec<String>) -> (r: Vec<String>)
    ensures
        crate::history::texts(r@) == first_occurrences(paths@),
{
    let mut kept: Vec<String> = Vec::new();
    let mut i: usize = 0;
    proof {
        assert(paths@.take(0) =~= Seq::empty());
        assert(crate::history::texts(kept@) =~= Seq::empty());
    }
    while i < paths.len()
        invariant
            i <= paths@.len(),
            crate::history::texts(kept@) == first_occurrences(paths@.take(i as int)),
        decreases paths@.len() - i,
    {
        let ghost before = crate::history::texts(kept@);
        proof {
            let upto = paths@.take(i + 1);
            assert(upto.drop_last() =~= paths@.take(i as int));
            assert(upto.last() == paths@[i as int]);
        }
        let mut known = false;
        let mut k: usize = 0;
        while k < kept.len() && !known
            invariant
                k <= kept@.len(),
                i < paths@.len(),
                before == crate::history::texts(kept@),
                known ==> before.contains(paths@[i as int]@),
                !known ==> forall|j: int| 0 <= j < k ==> #[trigger] before[j] != paths@[i as int]@,
            decreases kept@.len() - k,
        {
            if same_text(kept[k].as_str(), paths[i].as_str()) {
                known = true;
                assert(before[k as int] == paths@[i as int]@);
            }
            k = k + 1;
        }
        if !known {
            assert(!before.contains(paths@[i as int]@));
            kept.push(paths[i].clone());
            assert(crate::history::texts(kept@) =~= before.push(paths@[i as int]@));
        }
        i = i + 1;
    }
    assert(paths@.take(i as int) =~= paths@);
    kept
}

/// A cancellation of the agents at and below some paths, in force once it is
/// activated.
pub struct MailboxSubmissionCancellation {
    pub roots: Vec<String>,
    pub active: bool,
}

impl MailboxSubmissionCancellation {
    pub fn new(roots: &Vec<String>) -> (r: Self)
        ensures
            !r.active,
            crate::history::texts(r.roots@) == first_occurrences(roots@),
    {
        MailboxSubmissionCancellation { roots: deduplicated_paths(roots), active: false }
    }

    /// Puts the cancellation in force, once.
    pub fn activate(&mut self, tracker: &mut MailboxSubmissionTracker)
        requires
            old(tracker).wf(),
            has_room(old(tracker)@.cancelled, old(self).roots@),
        ensures
            final(tracker).wf(),
            final(self).active,
            final(self).roots == old(self).roots,
            final(tracker)@ == if old(self).active {
                old(tracker)@
            } else {
                cancelled(old(tracker)@, old(self).roots@)
            },
    {
        if !self.active {
            self.active = true;
            tracker.cancel_author_subtrees(&self.roots);
        }
    }

    /// Ends the cancellation.
    pub fn release(self, tracker: &mut MailboxSubmissionTracker)
        requires
            old(tracker).wf(),
        ensures
            final(tracker).wf(),
            final(tracker)@ == if self.active {
                TrackerModel {
                    cancelled: lowered(old(tracker)@.cancelled, self.roots@),
                    ..old(tracker)@
                }
            } else {
                old(tracker)@
            },
    {
        if self.active {
            tracker.release_author_subtrees(&self.roots);
        }
    }
}

/// Cancelling some paths counts once more for each time that a path is named, and
/// for no other.
pub proof fn cancellations_are_counted(
    cancelled: Map<Seq<char>, usize>,
    roots: Seq<String>,
    root: Seq<char>,
)
    requires
        counts_are_positive(cancelled),
        has_room(cancelled, roots),
        roots.len() <= usize::MAX,
    ensures
        count_of(raised(cancelled, roots), root) == count_of(cancelled, root) + occurrences(
            roots,
            root,
        ),
        raised(cancelled, roots).contains_key(root) <==> cancelled.contains_key(root)
            || (exists|i: int| 0 <= i < roots.len() && (#[trigger] roots[i])@ == root),
    decreases roots.len(),
{
    if roots.len() > 0 {
        let rest = roots.drop_last();
        cancellations_are_counted(cancelled, rest, root);
        cancellations_are_counted(cancelled, rest, roots.last()@);
        lemma_occurrences_bound(rest, roots.last()@);
        assert(count_of(cancelled, roots.last()@) + roots.len() <= usize::MAX);
        assert(roots[roots.len() - 1] == roots.last());
        if exists|i: int| 0 <= i < rest.len() && (#[trigger] rest[i])@ == root {
            let i = choose|i: int| 0 <= i < rest.len() && (#[trigger] rest[i])@ == root;
            assert(roots[i]@ == root);
        }
        if exists|i: int| 0 <= i < roots.len() && (#[trigger] roots[i])@ == root {
            let i = choose|i: int| 0 <= i < roots.len() && (#[trigger] roots[i])@ == root;
            if i < rest.len() {
                assert(rest[i]@ == root);
            }
        }
    }
}

proof fn lemma_occurrences_bound(roots: Seq<String>, root: Seq<char>)
    ensures
        occurrences(roots, root) <= roots.len(),
    decreases roots.len(),
{
    if roots.len() > 0 {
        lemma_occurrences_bound(roots.drop_last(), root);
    }
}

/// After a cancellation every submission by an agent at or below one of its paths
/// is cancelled, one that was cancelled stays so, and nothing else changes; no one
/// waits for those agents any more.
pub proof fn cancelling_reaches_what_is_on_its_way(
    m: TrackerModel,
    roots: Seq<String>,
    id: Seq<char>,
)
    requires
        counts_are_positive(m.cancelled),
        has_room(m.cancelled, roots),
        roots.len() <= usize::MAX,
    ensures
        ({
            let t = cancelled(m, roots);
            &&& t.submissions.contains_key(id) <==> m.submissions.contains_key(id)
            &&& m.submissions.contains_key(id) ==> t.submissions[id].0 == m.submissions[id].0 && (
            t.submissions[id].1 <==> m.submissions[id].1 || is_cancelled_author(
                m.cancelled,
                m.submissions[id].0,
            ) || in_subtrees(m.submissions[id].0, roots))
            &&& !awaits(t, roots)
            &&& roots.len() > 0 ==> t.revision != m.revision
        }),
{
    let t = cancelled(m, roots);
    let now = raised(m.cancelled, roots);
    assert forall|author: Seq<char>| #[trigger] is_cancelled_author(now, author) == (
    is_cancelled_author(m.cancelled, author) || in_subtrees(author, roots)) by {
        if is_cancelled_author(now, author) {
            let root = choose|root: Seq<char>| #[trigger]
                now.contains_key(root) && in_subtree(author, root);
            cancellations_are_counted(m.cancelled, roots, root);
            if !m.cancelled.contains_key(root) {
                let i = choose|i: int| 0 <= i < roots.len() && (#[trigger] roots[i])@ == root;
                assert(in_subtree(author, roots[i]@));
            }
        }
        if is_cancelled_author(m.cancelled, author) {
            let root = choose|root: Seq<char>| #[trigger]
                m.cancelled.contains_key(root) && in_subtree(author, root);
            cancellations_are_counted(m.cancelled, roots, root);
            assert(now.contains_key(root));
        }
        if in_subtrees(author, roots) {
            let i = choose|i: int|
                0 <= i < roots.len() && in_subtree(author, (#[trigger] roots[i])@);
            cancellations_are_counted(m.cancelled, roots, roots[i]@);
            assert(now.contains_key(roots[i]@));
        }
    }
    if m.submissions.contains_key(id) {
        assert(is_cancelled_author(now, m.submissions[id].0) == (is_cancelled_author(
            m.cancelled,
            m.submissions[id].0,
        ) || in_subtrees(m.submissions[id].0, roots)));
    }
    if awaits(t, roots) {
        let other = choose|other: Seq<char>|
            #[trigger] t.submissions.contains_key(other) && !t.submissions[other].1
                && in_subtrees(t.submissions[other].0, roots);
        assert(is_cancelled_author(now, m.submissions[other].0));
    }
}

/// An agent's messages are not taken exactly where a cancelled path is its own or
/// above it.
pub proof fn whose_messages_are_not_taken(cancelled: Map<Seq<char>, usize>, author: Seq<char>)
    ensures
        cancelled.contains_key(author) ==> is_cancelled_author(cancelled, author),
        cancelled.dom().is_empty() ==> !is_cancelled_author(cancelled, author),
        forall|root: Seq<char>| #[trigger]
            cancelled.contains_key(root) && author == root + seq!['/'] ==> is_cancelled_author(
                cancelled,
                author,
            ),
{
    if cancelled.contains_key(author) {
        assert(in_subtree(author, author));
    }
    assert forall|root: Seq<char>| #[trigger]
        cancelled.contains_key(root) && author == root + seq!['/'] implies is_cancelled_author(
        cancelled,
        author,
    ) by {
        assert(author.take(root.len() as int) =~= root);
        assert(in_subtree(author, root));
    }
}

/// A submission is known by its author until it is withdrawn; both change the
/// revision, and leave other submissions and all cancellations alone.
pub proof fn submissions_come_and_go(
    m: TrackerModel,
    id: Seq<char>,
    author: Seq<char>,
    other: Seq<char>,
)
    ensures
        submitted(m, id, author).submissions.contains_key(id),
        submitted(m, id, author).submissions[id].0 == author,
        submitted(m, id, author).submissions[id].1 == is_cancelled_author(m.cancelled, author),
        !withdrawn(m, id).submissions.contains_key(id),
        submitted(m, id, author).cancelled == m.cancelled,
        withdrawn(m, id).cancelled == m.cancelled,
        submitted(m, id, author).revision != m.revision,
        withdrawn(m, id).revision != m.revision,
        other != id ==> (submitted(m, id, author).submissions.contains_key(other)
            <==> m.submissions.contains_key(other)) && (withdrawn(
            m,
            id,
        ).submissions.contains_key(other) <==> m.submissions.contains_key(other)) && (
        m.submissions.contains_key(other) ==> submitted(m, id, author).submissions[other]
            == m.submissions[other] && withdrawn(m, id).submissions[other] == m.submissions[other]),
{
}

/// Paths without repetitions: every path is there, none twice, and each where it
/// first occurred.
pub proof fn each_path_is_kept_once(paths: Seq<String>, i: int)
    ensures
        0 <= i < paths.len() ==> first_occurrences(paths).contains(paths[i]@),
        first_occurrences(paths).no_duplicates(),
        first_occurrences(paths).len() <= paths.len(),
        forall|k: int|
            0 <= k < first_occurrences(paths).len() ==> exists|j: int|
                0 <= j < paths.len() && (#[trigger] paths[j])@ == #[trigger] first_occurrences(
                    paths,
                )[k],
        paths.len() > 0 ==> first_occurrences(paths).len() > 0 && first_occurrences(paths)[0]
            == paths[0]@,
    decreases paths.len(),
{
    if paths.len() > 0 {
        let rest = paths.drop_last();
        each_path_is_kept_once(rest, i);
        let before = first_occurrences(rest);
        let all = first_occurrences(paths);
        let last = paths.last()@;
        assert(paths[paths.len() - 1] == paths.last());
        if !before.contains(last) {
            assert(all[before.len() as int] == last);
        }
        if 0 <= i < rest.len() {
            assert(rest[i] == paths[i]);
            let k = choose|k: int| 0 <= k < before.len() && before[k] == paths[i]@;
            assert(all[k] == paths[i]@);
        }
        assert forall|k: int| 0 <= k < all.len() implies exists|j: int|
            0 <= j < paths.len() && (#[trigger] paths[j])@ == #[trigger] all[k] by {
            if k < before.len() {
                assert(all[k] == before[k]);
                let j = choose|j: int| 0 <= j < rest.len() && (#[trigger] rest[j])@ == before[k];
                assert(paths[j]@ == all[k]);
            } else {
                assert(paths[paths.len() - 1]@ == all[k]);
            }
        }
        if rest.len() > 0 {
            assert(rest[0] == paths[0]);
        }
    }
}

} // verus!
