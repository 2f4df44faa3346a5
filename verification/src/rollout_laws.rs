//! What rollbacks and numbering promise of the records in effect.

use vstd::prelude::*;

verus! {

use crate::history::{item_text, HistoryBodyModel};
use crate::rollout_source::{
    begins_turn, effective, is_context_update, is_kept, is_source, last_sampling, numbered,
    rolled_back, sampling_is_open, source_count, turn_starts, user_messages, without_updates,
    Numbered, RolloutEntry,
};

/// Whether no contextual update begins a turn.
pub open spec fn updates_begin_no_turn(list: Seq<Numbered>) -> bool {
    forall|i: int|
        0 <= i < list.len() ==> !(is_context_update((#[trigger] list[i]).1) && begins_turn(
            list[i].1,
        ))
}

proof fn lemma_starts_in_range(list: Seq<Numbered>)
    ensures
        forall|k: int|
            0 <= k < turn_starts(list).len() ==> 0 <= #[trigger] turn_starts(list)[k] < list.len(),
    decreases list.len(),
{
    if list.len() > 0 {
        lemma_starts_in_range(list.drop_last());
        let before = turn_starts(list.drop_last());
        assert forall|k: int| 0 <= k < turn_starts(list).len() implies 0 <= #[trigger] turn_starts(
            list,
        )[k] < list.len() by {
            if k < before.len() {
                assert(turn_starts(list)[k] == before[k]);
            }
        }
    }
}

/// Before the place where a turn begins lie exactly the turns before it.
proof fn lemma_starts_before(list: Seq<Numbered>, k: int)
    requires
        0 <= k < turn_starts(list).len(),
    ensures
        turn_starts(list.take(turn_starts(list)[k])) == turn_starts(list).take(k),
    decreases list.len(),
{
    let rest = list.drop_last();
    let starts = turn_starts(list);
    lemma_starts_in_range(rest);
    if begins_turn(list.last().1) && k == starts.len() - 1 {
        assert(list.take(starts[k]) =~= rest);
        assert(starts.take(k) =~= turn_starts(rest));
    } else {
        lemma_starts_before(rest, k);
        assert(starts[k] == turn_starts(rest)[k]);
        assert(list.take(starts[k]) =~= rest.take(starts[k]));
        assert(starts.take(k) =~= turn_starts(rest).take(k));
    }
}

proof fn lemma_updates_keep_turns(list: Seq<Numbered>, first: int)
    requires
        updates_begin_no_turn(list),
    ensures
        turn_starts(without_updates(list, first)).len() == turn_starts(list).len(),
    decreases list.len(),
{
    if list.len() == 0 || list.len() <= first {
    } else if is_context_update(list.last().1) {
        assert(list[list.len() - 1] == list.last());
        assert(updates_begin_no_turn(list.drop_last()));
        lemma_updates_keep_turns(list.drop_last(), first);
    } else if list.last().1 is TokenCount {
        assert(updates_begin_no_turn(list.drop_last()));
        lemma_updates_keep_turns(list.drop_last(), first);
        let kept = without_updates(list.drop_last(), first);
        assert(kept.push(list.last()).drop_last() =~= kept);
    }
}

/// A rollback of some turns takes exactly that many away, or all there are.
pub proof fn a_rollback_takes_its_turns(list: Seq<Numbered>, turns: nat)
    requires
        updates_begin_no_turn(list),
    ensures
        turn_starts(rolled_back(list, turns)).len() == if turns <= turn_starts(list).len() {
            (turn_starts(list).len() - turns) as nat
        } else {
            0
        },
{
    let starts = turn_starts(list);
    if turns > 0 && starts.len() > 0 {
        let k = if turns <= starts.len() {
            starts.len() - turns
        } else {
            0
        };
        lemma_starts_before(list, k);
        lemma_starts_in_range(list);
        let kept = list.take(starts[k]);
        assert forall|i: int| 0 <= i < kept.len() implies !(is_context_update(
            (#[trigger] kept[i]).1,
        ) && begins_turn(kept[i].1)) by {
            assert(kept[i] == list[i]);
        }
        lemma_updates_keep_turns(kept, starts[0]);
    }
}

/// Whether ordinals never fall, and rise after each source record.
pub open spec fn ordered(list: Seq<Numbered>) -> bool {
    forall|i: int, j: int|
        0 <= i < j < list.len() ==> in_order(#[trigger] list[i], #[trigger] list[j])
}

/// Whether one record may stand before another.
pub open spec fn in_order(a: Numbered, b: Numbered) -> bool {
    a.0 <= b.0 && (is_source(a.1) ==> a.0 < b.0)
}

/// Whether every record may stand before one with the given ordinal.
pub open spec fn all_before(list: Seq<Numbered>, ordinal: int) -> bool {
    forall|i: int|
        0 <= i < list.len() ==> (#[trigger] list[i]).0 <= ordinal && (is_source(list[i].1)
            ==> list[i].0 < ordinal)
}

proof fn lemma_without_updates_ordered(list: Seq<Numbered>, first: int, ordinal: int)
    requires
        ordered(list),
        all_before(list, ordinal),
    ensures
        ordered(without_updates(list, first)),
        all_before(without_updates(list, first), ordinal),
    decreases list.len(),
{
    if list.len() == 0 || list.len() <= first {
    } else if is_context_update(list.last().1) {
        assert(list.drop_last() =~= list.take(list.len() - 1));
        lemma_without_updates_ordered(list.drop_last(), first, ordinal);
    } else if list.last().1 is TokenCount {
        let last = list.last();
        let rest = list.drop_last();
        assert(all_before(rest, last.0 as int)) by {
            assert forall|i: int| 0 <= i < rest.len() implies (#[trigger] rest[i]).0 <= last.0 && (
            is_source(rest[i].1) ==> rest[i].0 < last.0) by {
                assert(in_order(list[i], list[list.len() - 1]));
            }
        }
        lemma_without_updates_ordered(rest, first, last.0 as int);
        let kept = without_updates(rest, first);
        assert(list[list.len() - 1] == last);
        assert forall|i: int, j: int| 0 <= i < j < kept.push(last).len() implies in_order(
            #[trigger] kept.push(last)[i],
            #[trigger] kept.push(last)[j],
        ) by {
            if j < kept.len() {
                assert(in_order(kept[i], kept[j]));
            }
        }
        assert(all_before(kept.push(last), ordinal)) by {
            assert forall|i: int| 0 <= i < kept.push(last).len() implies (#[trigger] kept.push(
                last,
            )[i]).0 <= ordinal && (is_source(kept.push(last)[i].1) ==> kept.push(last)[i].0
                < ordinal) by {
                if i < kept.len() {
                    assert(kept[i].0 <= last.0);
                }
            }
        }
    }
}

proof fn lemma_rolled_back_ordered(list: Seq<Numbered>, turns: nat, ordinal: int)
    requires
        ordered(list),
        all_before(list, ordinal),
    ensures
        ordered(rolled_back(list, turns)),
        all_before(rolled_back(list, turns), ordinal),
{
    let starts = turn_starts(list);
    if turns > 0 && starts.len() > 0 {
        let cut = if turns <= starts.len() {
            starts[starts.len() - turns]
        } else {
            starts[0]
        };
        lemma_starts_in_range(list);
        let kept = list.take(cut);
        assert(ordered(kept)) by {
            assert forall|i: int, j: int| 0 <= i < j < kept.len() implies in_order(
                #[trigger] kept[i],
                #[trigger] kept[j],
            ) by {
                assert(in_order(list[i], list[j]));
            }
        }
        assert(all_before(kept, ordinal)) by {
            assert forall|i: int| 0 <= i < kept.len() implies (#[trigger] kept[i]).0 <= ordinal && (
            is_source(kept[i].1) ==> kept[i].0 < ordinal) by {
                assert(list[i].0 <= ordinal);
            }
        }
        lemma_without_updates_ordered(kept, starts[0], ordinal);
    }
}

proof fn lemma_source_count_bound(rollout: Seq<RolloutEntry>)
    ensures
        source_count(rollout) <= rollout.len(),
    decreases rollout.len(),
{
    if rollout.len() > 0 {
        lemma_source_count_bound(rollout.drop_last());
    }
}

/// The records in effect are in the order of their ordinals, and no two source
/// records share one.
pub proof fn ordinals_identify_source_records(rollout: Seq<RolloutEntry>)
    requires
        rollout.len() <= usize::MAX,
    ensures
        ordered(effective(numbered(rollout))),
        all_before(effective(numbered(rollout)), source_count(rollout) as int),
    decreases rollout.len(),
{
    if rollout.len() > 0 {
        let rest = rollout.drop_last();
        let last = rollout.last();
        ordinals_identify_source_records(rest);
        lemma_source_count_bound(rest);
        let ordinal = source_count(rest) as usize;
        let all = numbered(rollout);
        assert(all.drop_last() =~= numbered(rest));
        let before = effective(numbered(rest));
        let count = source_count(rollout) as int;
        assert(all_before(before, count)) by {
            assert forall|i: int| 0 <= i < before.len() implies (#[trigger] before[i]).0 <= count
                && (is_source(before[i].1) ==> before[i].0 < count) by {
                assert(before[i].0 <= source_count(rest));
            }
        }
        match last {
            RolloutEntry::ThreadRolledBack { num_turns } => {
                lemma_rolled_back_ordered(before, num_turns as nat, count);
            },
            _ => {
                if is_kept(last) {
                    let grown = before.push((ordinal, last));
                    assert forall|i: int, j: int| 0 <= i < j < grown.len() implies in_order(
                        #[trigger] grown[i],
                        #[trigger] grown[j],
                    ) by {
                        if j < before.len() {
                            assert(in_order(before[i], before[j]));
                        } else {
                            assert(before[i].0 <= source_count(rest));
                        }
                    }
                    assert forall|i: int| 0 <= i < grown.len() implies (#[trigger] grown[i]).0
                        <= count && (is_source(grown[i].1) ==> grown[i].0 < count) by {
                        if i < before.len() {
                            assert(before[i].0 <= count);
                        }
                    }
                }
            },
        }
    }
}

/// A record that is neither kept nor a rollback changes nothing: not what is in
/// effect, and not the ordinals of what follows it.
pub proof fn other_records_do_not_count(
    before: Seq<RolloutEntry>,
    other: RolloutEntry,
    after: Seq<RolloutEntry>,
)
    requires
        !is_kept(other),
        !(other is ThreadRolledBack),
    ensures
        effective(numbered(before.push(other) + after)) == effective(numbered(before + after)),
        source_count(before.push(other) + after) == source_count(before + after),
    decreases after.len(),
{
    let long = before.push(other) + after;
    let short = before + after;
    if after.len() == 0 {
        assert(long =~= before.push(other));
        assert(short =~= before);
        assert(long.drop_last() =~= before);
        assert(numbered(long).drop_last() =~= numbered(before));
    } else {
        other_records_do_not_count(before, other, after.drop_last());
        assert(long.drop_last() =~= before.push(other) + after.drop_last());
        assert(short.drop_last() =~= before + after.drop_last());
        assert(numbered(long).drop_last() =~= numbered(long.drop_last()));
        assert(numbered(short).drop_last() =~= numbered(short.drop_last()));
        assert(long.last() == after.last());
        assert(short.last() == after.last());
        assert(numbered(long).last() == numbered(short).last());
    }
}

/// Whether a record is where a turn begins: a message that the host takes as a
/// turn of the user, or a message from another agent.
pub open spec fn opens_a_turn(entry: RolloutEntry) -> bool {
    ||| entry is InterAgentCommunication
    ||| (entry matches RolloutEntry::ResponseItem { turn_boundary, .. } && turn_boundary)
}

/// Whether a record is a message of the user or the developer that the host
/// takes as context.
pub open spec fn updates_context(entry: RolloutEntry) -> bool {
    entry matches RolloutEntry::ResponseItem { item, contextual, .. } && contextual && (
    item@.body matches HistoryBodyModel::Message { role, .. } && (role == "user"@ || role
        == "developer"@))
}

proof fn lemma_starts_open_turns(list: Seq<Numbered>, i: int)
    requires
        0 <= i < list.len(),
    ensures
        turn_starts(list).contains(i) <==> opens_a_turn(list[i].1),
    decreases list.len(),
{
    let rest = list.drop_last();
    let before = turn_starts(rest);
    let starts = turn_starts(list);
    lemma_starts_in_range(rest);
    if i < rest.len() {
        assert(rest[i] == list[i]);
        lemma_starts_open_turns(rest, i);
        if before.contains(i) {
            let k = choose|k: int| 0 <= k < before.len() && before[k] == i;
            assert(starts[k] == i);
        }
        if starts.contains(i) {
            let k = choose|k: int| 0 <= k < starts.len() && starts[k] == i;
            assert(before[k] == i);
        }
    } else if opens_a_turn(list[i].1) {
        assert(starts[before.len() as int] == i);
    } else if starts.contains(i) {
        let k = choose|k: int| 0 <= k < starts.len() && starts[k] == i;
        assert(before[k] == i);
    }
}

proof fn lemma_no_starts(list: Seq<Numbered>)
    requires
        forall|i: int| 0 <= i < list.len() ==> !opens_a_turn((#[trigger] list[i]).1),
    ensures
        turn_starts(list).len() == 0,
    decreases list.len(),
{
    if list.len() > 0 {
        let rest = list.drop_last();
        assert forall|i: int| 0 <= i < rest.len() implies !opens_a_turn((#[trigger] rest[i]).1) by {
            assert(rest[i] == list[i]);
        }
        lemma_no_starts(rest);
        assert(!opens_a_turn(list[list.len() - 1].1));
    }
}

/// A rollback of no turns, and one where no turn was begun, takes nothing away.
pub proof fn without_turns_nothing_is_rolled_back(list: Seq<Numbered>, turns: nat)
    ensures
        rolled_back(list, 0) == list,
        (forall|i: int| 0 <= i < list.len() ==> !opens_a_turn((#[trigger] list[i]).1))
            ==> rolled_back(list, turns) == list,
{
    if forall|i: int| 0 <= i < list.len() ==> !opens_a_turn((#[trigger] list[i]).1) {
        lemma_no_starts(list);
    }
}

proof fn lemma_last_start(front: Seq<Numbered>, start: Numbered, tail: Seq<Numbered>)
    requires
        opens_a_turn(start.1),
        forall|i: int| 0 <= i < tail.len() ==> !opens_a_turn((#[trigger] tail[i]).1),
    ensures
        turn_starts(front + seq![start] + tail) == turn_starts(front).push(front.len() as int),
    decreases tail.len(),
{
    let list = front + seq![start] + tail;
    if tail.len() == 0 {
        assert(list.drop_last() =~= front);
        assert(list.last() == start);
    } else {
        let rest = tail.drop_last();
        assert forall|i: int| 0 <= i < rest.len() implies !opens_a_turn((#[trigger] rest[i]).1) by {
            assert(rest[i] == tail[i]);
        }
        lemma_last_start(front, start, rest);
        assert(list.drop_last() =~= front + seq![start] + rest);
        assert(list.last() == tail[tail.len() - 1]);
    }
}

proof fn lemma_without_updates(list: Seq<Numbered>, first: int)
    requires
        0 <= first,
    ensures
        exists|n: int|
            0 <= n <= list.len() && #[trigger] without_updates(list, first).take(n) == list.take(n)
                && is_trimmed(list, without_updates(list, first), first, n),
    decreases list.len(),
{
    let kept = without_updates(list, first);
    reveal(Seq::filter);
    if list.len() == 0 || list.len() <= first || !(is_context_update(list.last().1)
        || list.last().1 is TokenCount) {
        let n = list.len() as int;
        assert(list.skip(n) =~= Seq::empty());
        assert(kept.skip(n) =~= Seq::empty());
        assert(kept.take(n) == list.take(n));
        assert(is_trimmed(list, kept, first, n));
    } else {
        let rest = list.drop_last();
        lemma_without_updates(rest, first);
        let before = without_updates(rest, first);
        let n = choose|n: int|
            0 <= n <= rest.len() && #[trigger] before.take(n) == rest.take(n) && is_trimmed(
                rest,
                before,
                first,
                n,
            );
        assert(n <= before.len());
        assert(list.skip(n).drop_last() =~= rest.skip(n));
        assert(list.skip(n).last() == list.last());
        assert(list.take(n) =~= rest.take(n));
        assert(kept.take(n) =~= before.take(n));
        if !is_context_update(list.last().1) {
            assert(kept.skip(n) =~= before.skip(n).push(list.last()));
        }
        assert forall|i: int| n <= i < list.len() implies updates_context((#[trigger] list[i]).1)
            || list[i].1 is TokenCount by {
            if i < rest.len() {
                assert(rest[i] == list[i]);
            }
        }
        if n > 0 {
            assert(list[n - 1] == rest[n - 1]);
        }
        assert(is_trimmed(list, kept, first, n));
    }
}

/// Whether `kept` is `list` without the contextual updates at its end: from `n`
/// on there are only updates and token counts, of which the token counts stay;
/// just before `n` stands something else, or the place below which nothing is
/// touched.
pub open spec fn is_trimmed(list: Seq<Numbered>, kept: Seq<Numbered>, first: int, n: int) -> bool {
    &&& n <= kept.len()
    &&& forall|i: int|
        n <= i < list.len() ==> updates_context((#[trigger] list[i]).1) || list[i].1 is TokenCount
    &&& kept.skip(n) == list.skip(n).filter(|e: Numbered| e.1 is TokenCount)
    &&& n < list.len() ==> n >= first
    &&& n > first && n > 0 ==> !updates_context(list[n - 1].1) && !(list[n - 1].1 is TokenCount)
}

/// A rollback of one turn cuts where the last turn begins, be it the user's or a
/// message from another agent. What stood before stays, but for the contextual
/// updates just above the cut; of what came before the first turn, nothing goes.
pub proof fn a_rollback_cuts_at_the_last_turn(
    front: Seq<Numbered>,
    start: Numbered,
    tail: Seq<Numbered>,
)
    requires
        opens_a_turn(start.1),
        forall|i: int| 0 <= i < tail.len() ==> !opens_a_turn((#[trigger] tail[i]).1),
    ensures
        ({
            let kept = rolled_back(front + seq![start] + tail, 1);
            exists|first: int, n: int|
                0 <= n <= front.len() && 0 <= first <= front.len() && #[trigger] is_trimmed(
                    front,
                    kept,
                    first,
                    n,
                ) && kept.take(n) == front.take(n) && (first < front.len() ==> opens_a_turn(
                    front[first].1,
                )) && forall|i: int| 0 <= i < first ==> !opens_a_turn((#[trigger] front[i]).1)
        }),
        (front.len() > 0 && !updates_context(front.last().1) && !(front.last().1 is TokenCount))
            ==> rolled_back(front + seq![start] + tail, 1) == front,
{
    let list = front + seq![start] + tail;
    lemma_last_start(front, start, tail);
    let starts = turn_starts(list);
    assert(starts[starts.len() - 1] == front.len());
    assert(list.take(front.len() as int) =~= front);
    let first = starts[0];
    lemma_starts_in_range(front);
    assert(0 <= first <= front.len());
    lemma_without_updates(front, first);
    let kept = without_updates(front, first);
    assert(kept == rolled_back(list, 1));
    let n = choose|n: int|
        0 <= n <= front.len() && #[trigger] kept.take(n) == front.take(n) && is_trimmed(
            front,
            kept,
            first,
            n,
        );
    if first < front.len() {
        assert(starts[0] == turn_starts(front)[0]);
        assert(turn_starts(front).contains(first));
        lemma_starts_open_turns(front, first);
    }
    assert forall|i: int| 0 <= i < first implies !opens_a_turn((#[trigger] front[i]).1) by {
        lemma_starts_open_turns(front, i);
        if opens_a_turn(front[i].1) {
            let k = choose|k: int|
                0 <= k < turn_starts(front).len() && turn_starts(front)[k] == i;
            lemma_starts_rise(front, 0, k);
            assert(starts[0] == turn_starts(front)[0]);
        }
    }
    assert(is_trimmed(front, kept, first, n));
    if front.len() > 0 && !updates_context(front.last().1) && !(front.last().1 is TokenCount) {
        assert(front[front.len() - 1] == front.last());
        assert(n == front.len());
        reveal(Seq::filter);
        assert(front.skip(n) =~= Seq::empty());
        assert(kept =~= kept.take(n) + kept.skip(n));
        assert(front.take(n) =~= front);
    }
}

proof fn lemma_starts_rise(list: Seq<Numbered>, a: int, b: int)
    requires
        0 <= a <= b < turn_starts(list).len(),
    ensures
        turn_starts(list)[a] <= turn_starts(list)[b],
    decreases list.len(),
{
    let rest = list.drop_last();
    let before = turn_starts(rest);
    lemma_starts_in_range(rest);
    if b < before.len() {
        lemma_starts_rise(rest, a, b);
        assert(turn_starts(list)[a] == before[a] && turn_starts(list)[b] == before[b]);
    } else if a < before.len() {
        assert(turn_starts(list)[a] == before[a]);
    }
}

proof fn lemma_updates_keep_starts(list: Seq<Numbered>, first: int)
    requires
        updates_begin_no_turn(list),
    ensures
        turn_starts(without_updates(list, first)) == turn_starts(list),
    decreases list.len(),
{
    if list.len() == 0 || list.len() <= first {
    } else if is_context_update(list.last().1) {
        assert(list[list.len() - 1] == list.last());
        assert(updates_begin_no_turn(list.drop_last()));
        lemma_updates_keep_starts(list.drop_last(), first);
    } else if list.last().1 is TokenCount {
        assert(updates_begin_no_turn(list.drop_last()));
        lemma_updates_keep_starts(list.drop_last(), first);
        let kept = without_updates(list.drop_last(), first);
        assert(kept.push(list.last()).drop_last() =~= kept);
    }
}

proof fn lemma_without_updates_front(list: Seq<Numbered>, first: int, n: int)
    requires
        0 <= n <= list.len(),
        n <= first || (n > 0 && !is_context_update(list[n - 1].1) && !(list[n - 1].1 is TokenCount)),
    ensures
        n <= without_updates(list, first).len(),
        without_updates(list, first).take(n) == list.take(n),
    decreases list.len(),
{
    if list.len() == 0 || list.len() <= first || n == list.len() {
    } else if is_context_update(list.last().1) {
        lemma_without_updates_front(list.drop_last(), first, n);
        assert(list.drop_last().take(n) =~= list.take(n));
    } else if list.last().1 is TokenCount {
        lemma_without_updates_front(list.drop_last(), first, n);
        let kept = without_updates(list.drop_last(), first);
        assert(kept.push(list.last()).take(n) =~= kept.take(n));
        assert(list.drop_last().take(n) =~= list.take(n));
    }
}

/// Rolling back some turns at once is rolling them back one by one, and where
/// there are fewer, all of them.
pub proof fn turns_are_rolled_back_one_by_one(list: Seq<Numbered>, turns: nat)
    requires
        forall|i: int|
            0 <= i < list.len() ==> !(updates_context((#[trigger] list[i]).1) && opens_a_turn(
                list[i].1,
            )),
    ensures
        rolled_back(list, turns + 1) == rolled_back(rolled_back(list, 1), turns),
{
    let starts = turn_starts(list);
    if starts.len() > 0 {
        lemma_starts_in_range(list);
        let last = starts[starts.len() - 1];
        let front = list.take(last);
        lemma_starts_before(list, starts.len() - 1);
        assert(turn_starts(front) == starts.take(starts.len() - 1));
        let once = without_updates(front, starts[0]);
        assert(updates_begin_no_turn(front)) by {
            assert forall|i: int| 0 <= i < front.len() implies !(is_context_update(
                (#[trigger] front[i]).1,
            ) && begins_turn(front[i].1)) by {
                assert(front[i] == list[i]);
                assert(!(updates_context(list[i].1) && opens_a_turn(list[i].1)));
            }
        }
        lemma_updates_keep_starts(front, starts[0]);
        let fewer = turn_starts(once);
        assert(fewer == starts.take(starts.len() - 1));
        if starts.len() == 1 {
            assert(once == front);
            assert(rolled_back(once, turns) == once);
        } else if turns > 0 {
            assert(fewer[0] == starts[0]);
            let k = if turns <= fewer.len() {
                fewer.len() - turns
            } else {
                0
            };
            let cut = fewer[k];
            assert(cut == starts[k]);
            lemma_starts_rise(list, k, starts.len() - 1);
            lemma_starts_in_range(front);
            assert(turn_starts(front)[k] == cut);
            assert(0 <= cut < front.len());
            lemma_starts_open_turns(front, cut);
            assert(turn_starts(front).contains(cut));
            assert(front[cut] == list[cut]);
            lemma_without_updates_front(front, starts[0], cut + 1);
            assert(once.take(cut) =~= once.take(cut + 1).take(cut));
            assert(front.take(cut) =~= front.take(cut + 1).take(cut));
            assert(front.take(cut) =~= list.take(cut));
            assert(once.take(cut) == list.take(cut));
        }
    }
}

/// What is in effect after one more record: a part of the source, a token count
/// and a record of a sampling attempt are added at the end, a rollback takes
/// turns away, and anything else changes nothing.
pub proof fn one_more_record(rollout: Seq<RolloutEntry>, entry: RolloutEntry)
    requires
        rollout.len() < usize::MAX,
    ensures
        ({
            let before = effective(numbered(rollout));
            let after = effective(numbered(rollout.push(entry)));
            match entry {
                RolloutEntry::ThreadRolledBack { num_turns } => after == rolled_back(
                    before,
                    num_turns as nat,
                ),
                RolloutEntry::Other => after == before,
                _ => after.len() == before.len() + 1 && after.drop_last() == before
                    && after.last().1 == entry && after.last().0 == sources_in(rollout),
            }
        }),
{
    let longer = rollout.push(entry);
    assert(longer.drop_last() =~= rollout);
    let all = numbered(longer);
    assert(all.drop_last() =~= numbered(rollout));
    lemma_sources(rollout);
    lemma_source_count_bound(rollout);
    let before = effective(numbered(rollout));
    assert(before.push(all.last()).drop_last() =~= before);
}

/// How many records of a rollout are items of the history, messages from other
/// agents and compactions.
pub open spec fn sources_in(rollout: Seq<RolloutEntry>) -> nat {
    rollout.filter(
        |e: RolloutEntry|
            e is ResponseItem || e is InterAgentCommunication || e is Compacted,
    ).len()
}

proof fn lemma_sources(rollout: Seq<RolloutEntry>)
    ensures
        source_count(rollout) == sources_in(rollout),
    decreases rollout.len(),
{
    reveal(Seq::filter);
    if rollout.len() > 0 {
        lemma_sources(rollout.drop_last());
    }
}

/// What the user said is numbered from one, without a gap.
pub proof fn user_messages_are_numbered(list: Seq<Numbered>, k: int)
    requires
        0 <= k < user_messages(list).len(),
        list.len() <= u64::MAX,
    ensures
        user_messages(list)[k].0 == k + 1,
        user_messages(list).len() <= list.len(),
    decreases list.len(),
{
    let rest = list.drop_last();
    let before = user_messages(rest);
    if list.len() > 0 {
        if k < before.len() {
            user_messages_are_numbered(rest, k);
            assert(user_messages(list)[k] == before[k]);
        } else {
            if before.len() > 0 {
                user_messages_are_numbered(rest, 0);
            }
        }
    }
}

/// A message under the role of the user is something that the user said, unless
/// the host takes it as context; nothing else is.
pub proof fn only_the_user_is_quoted(list: Seq<Numbered>, ordinal: usize, entry: RolloutEntry)
    ensures
        ({
            let before = user_messages(list);
            let after = user_messages(list.push((ordinal, entry)));
            let said = entry matches RolloutEntry::ResponseItem { item, contextual, .. }
                && !contextual && (item@.body matches HistoryBodyModel::Message { role, .. }
                && role == "user"@);
            &&& !said ==> after == before
            &&& said ==> (after.len() == before.len() + 1 && after.drop_last() == before
                && after.last().1 == item_text(entry->ResponseItem_item@))
        }),
{
    let longer = list.push((ordinal, entry));
    assert(longer.drop_last() =~= list);
    let before = user_messages(list);
    if let RolloutEntry::ResponseItem { item, .. } = entry {
        let added = ((before.len() + 1) as u64, item_text(item@));
        assert(before.push(added).drop_last() =~= before);
    }
}

/// The last sampling attempt is open where no commit follows its start; then the
/// start is the last record that is left of it.
pub proof fn the_last_attempt_is_cut_at_its_start(items: Seq<RolloutEntry>, i: int)
    ensures
        last_sampling(items) < items.len(),
        last_sampling(items) >= 0 ==> items[last_sampling(items)] is SamplingStarted,
        last_sampling(items) < i < items.len() && 0 <= i ==> !(items[i] is SamplingStarted),
        sampling_is_open(items) && last_sampling(items) < i < items.len() ==> !(
        items[i] is Transition) && !(items[i] is SamplingStarted),
        !sampling_is_open(items) && 0 <= i < items.len() && items[i] is SamplingStarted ==> exists|
            j: int,
        |
            i < j < items.len() && #[trigger] items[j] is Transition,
    decreases items.len(),
{
    lemma_last_start_of(items, i);
    if !sampling_is_open(items) && 0 <= i < items.len() && items[i] is SamplingStarted {
        assert(last_sampling(items) >= i);
        let j = choose|j: int|
            last_sampling(items) < j < items.len() && #[trigger] items[j] is Transition;
        assert(items[j] is Transition);
    }
}

proof fn lemma_last_start_of(items: Seq<RolloutEntry>, i: int)
    ensures
        -1 <= last_sampling(items) < items.len(),
        last_sampling(items) >= 0 ==> items[last_sampling(items)] is SamplingStarted,
        last_sampling(items) < i < items.len() && 0 <= i ==> !(items[i] is SamplingStarted),
    decreases items.len(),
{
    if items.len() > 0 && !(items.last() is SamplingStarted) {
        lemma_last_start_of(items.drop_last(), i);
        if i < items.len() - 1 && 0 <= i {
            assert(items.drop_last()[i] == items[i]);
        }
    }
}

} // verus!
