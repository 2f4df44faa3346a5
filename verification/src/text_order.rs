//! Texts in order, each once.

use crate::text::to_chars;
use vstd::prelude::*;

verus! {

/// Whether one text comes before another: by the first character in which they
/// differ, a shorter one before those that it begins.
pub open spec fn text_less(a: Seq<char>, b: Seq<char>) -> bool
    decreases a.len(),
{
    if b.len() == 0 {
        false
    } else if a.len() == 0 {
        true
    } else if a[0] != b[0] {
        a[0] < b[0]
    } else {
        text_less(a.skip(1), b.skip(1))
    }
}

/// Whether texts are in order and none occurs twice.
pub open spec fn in_text_order(list: Seq<String>) -> bool {
    forall|i: int, j: int|
        0 <= i < j < list.len() ==> text_less((#[trigger] list[i])@, (#[trigger] list[j])@)
}

/// Whether a list has a text.
pub open spec fn has_text(list: Seq<String>, text: Seq<char>) -> bool {
    exists|i: int| 0 <= i < list.len() && (#[trigger] list[i])@ == text
}

/// The texts of a list.
pub open spec fn text_set(list: Seq<String>) -> Set<Seq<char>> {
    Set::new(|text: Seq<char>| has_text(list, text))
}

pub proof fn lemma_not_less_itself(a: Seq<char>)
    ensures
        !text_less(a, a),
    decreases a.len(),
{
    if a.len() > 0 {
        lemma_not_less_itself(a.skip(1));
    }
}

pub proof fn lemma_less_is_transitive(a: Seq<char>, b: Seq<char>, c: Seq<char>)
    requires
        text_less(a, b),
        text_less(b, c),
    ensures
        text_less(a, c),
    decreases a.len(),
{
    if a.len() > 0 && a[0] == b[0] && b[0] == c[0] {
        lemma_less_is_transitive(a.skip(1), b.skip(1), c.skip(1));
    }
}

pub proof fn lemma_one_is_less(a: Seq<char>, b: Seq<char>)
    ensures
        text_less(a, b) || text_less(b, a) || a == b,
        !(text_less(a, b) && text_less(b, a)),
    decreases a.len(),
{
    if a.len() == 0 {
        if b.len() == 0 {
            assert(a =~= b);
        }
    } else if b.len() > 0 && a[0] == b[0] {
        lemma_one_is_less(a.skip(1), b.skip(1));
        if a.skip(1) == b.skip(1) {
            assert(a =~= seq![a[0]] + a.skip(1));
            assert(b =~= seq![b[0]] + b.skip(1));
        }
    }
}

/// Compares two texts.
pub fn comes_before(a: &str, b: &str) -> (r: bool)
    ensures
        r == text_less(a@, b@),
{
    let x = to_chars(a);
    let y = to_chars(b);
    let mut i: usize = 0;
    assert(x@.skip(0) =~= x@);
    assert(y@.skip(0) =~= y@);
    while i < x.len() && i < y.len()
        invariant
            i <= x@.len(),
            i <= y@.len(),
            x@ == a@,
            y@ == b@,
            text_less(x@, y@) == text_less(x@.skip(i as int), y@.skip(i as int)),
        decreases x@.len() - i,
    {
        assert(x@.skip(i as int)[0] == x@[i as int]);
        assert(y@.skip(i as int)[0] == y@[i as int]);
        assert(x@.skip(i as int).skip(1) =~= x@.skip(i + 1));
        assert(y@.skip(i as int).skip(1) =~= y@.skip(i + 1));
        if x[i] != y[i] {
            return x[i] < y[i];
        }
        i = i + 1;
    }
    i < y.len()
}

/// Puts a text into its place, unless it is there.
pub fn insert_in_order(list: &mut Vec<String>, text: String)
    requires
        in_text_order(old(list)@),
    ensures
        in_text_order(final(list)@),
        text_set(final(list)@) == text_set(old(list)@).insert(text@),
{
    let ghost before = list@;
    let mut i: usize = 0;
    while i < list.len() && comes_before(list[i].as_str(), text.as_str())
        invariant
            i <= list@.len(),
            list@ == before,
            forall|k: int| 0 <= k < i ==> text_less((#[trigger] list@[k])@, text@),
        decreases list@.len() - i,
    {
        i = i + 1;
    }
    if i < list.len() {
        proof {
            lemma_one_is_less(list@[i as int]@, text@);
        }
        if !comes_before(text.as_str(), list[i].as_str()) {
            proof {
                assert(list@[i as int]@ == text@);
                assert(text_set(before).insert(text@) =~= text_set(before));
            }
            return;
        }
    }
    list.insert(i, text);
    proof {
        let after = list@;
        assert forall|a: int, b: int| 0 <= a < b < after.len() implies text_less(
            (#[trigger] after[a])@,
            (#[trigger] after[b])@,
        ) by {
            if b < i {
                assert(text_less(before[a]@, before[b]@));
            } else if b == i {
                assert(text_less(before[a]@, text@));
            } else if a == i {
                assert(after[b] == before[b - 1]);
                if b - 1 > i {
                    assert(text_less(before[i as int]@, before[b - 1]@));
                    lemma_less_is_transitive(text@, before[i as int]@, before[b - 1]@);
                }
            } else if a < i {
                assert(text_less(before[a]@, before[b - 1]@));
            } else {
                assert(text_less(before[a - 1]@, before[b - 1]@));
            }
        }
        assert forall|t: Seq<char>| #[trigger] text_set(after).contains(t) implies text_set(
            before,
        ).insert(text@).contains(t) by {
            let k = choose|k: int| 0 <= k < after.len() && (#[trigger] after[k])@ == t;
            if k < i {
                assert(before[k]@ == t);
            } else if k > i {
                assert(before[k - 1]@ == t);
            }
        }
        assert forall|t: Seq<char>| #[trigger] text_set(before).insert(text@).contains(
            t,
        ) implies text_set(after).contains(t) by {
            if t == text@ {
                assert(after[i as int]@ == t);
            } else {
                let k = choose|k: int| 0 <= k < before.len() && (#[trigger] before[k])@ == t;
                if k < i {
                    assert(after[k]@ == t);
                } else {
                    assert(after[k + 1]@ == t);
                }
            }
        }
        assert(text_set(after) =~= text_set(before).insert(text@));
    }
}

/// Puts texts into their places.
pub fn insert_all_in_order(list: &mut Vec<String>, more: &Vec<String>)
    requires
        in_text_order(old(list)@),
    ensures
        in_text_order(final(list)@),
        text_set(final(list)@) == text_set(old(list)@).union(text_set(more@)),
{
    let ghost before = text_set(list@);
    let mut i: usize = 0;
    assert(before.union(text_set(more@.take(0))) =~= before);
    while i < more.len()
        invariant
            i <= more@.len(),
            in_text_order(list@),
            text_set(list@) == before.union(text_set(more@.take(i as int))),
        decreases more@.len() - i,
    {
        insert_in_order(list, more[i].clone());
        proof {
            let part = more@.take(i as int);
            let next = more@.take(i + 1);
            assert forall|t: Seq<char>| #[trigger] text_set(next).contains(t) == (text_set(
                part,
            ).contains(t) || t == more@[i as int]@) by {
                if text_set(part).contains(t) {
                    let k = choose|k: int| 0 <= k < part.len() && (#[trigger] part[k])@ == t;
                    assert(next[k]@ == t);
                }
                if t == more@[i as int]@ {
                    assert(next[i as int]@ == t);
                }
                if text_set(next).contains(t) && t != more@[i as int]@ {
                    let k = choose|k: int| 0 <= k < next.len() && (#[trigger] next[k])@ == t;
                    assert(part[k]@ == t);
                }
            }
            assert(before.union(text_set(next)) =~= before.union(text_set(part)).insert(
                more@[i as int]@,
            ));
        }
        i = i + 1;
    }
    assert(more@.take(i as int) =~= more@);
}

/// Two lists in order with the same texts are the same.
pub proof fn order_determines_the_list(a: Seq<String>, b: Seq<String>)
    requires
        in_text_order(a),
        in_text_order(b),
        text_set(a) == text_set(b),
    ensures
        a.len() == b.len(),
        forall|i: int| 0 <= i < a.len() ==> (#[trigger] a[i])@ == b[i]@,
    decreases a.len(),
{
    if a.len() == 0 {
        if b.len() > 0 {
            assert(text_set(b).contains(b[0]@));
            assert(text_set(a).contains(b[0]@));
        }
    } else {
        assert(text_set(a).contains(a.last()@)) by {
            assert(a[a.len() - 1]@ == a.last()@);
        }
        assert(text_set(b).contains(a.last()@));
        let at = choose|k: int| 0 <= k < b.len() && (#[trigger] b[k])@ == a.last()@;
        assert(text_set(b).contains(b.last()@)) by {
            assert(b[b.len() - 1]@ == b.last()@);
        }
        assert(text_set(a).contains(b.last()@));
        let back = choose|k: int| 0 <= k < a.len() && (#[trigger] a[k])@ == b.last()@;
        if at < b.len() - 1 {
            assert(text_less(b[at]@, b[b.len() - 1]@));
            if back < a.len() - 1 {
                assert(text_less(a[back]@, a[a.len() - 1]@));
                lemma_one_is_less(a.last()@, b.last()@);
            } else {
                lemma_not_less_itself(b.last()@);
            }
        }
        assert(a.last()@ == b.last()@);
        let x = a.drop_last();
        let y = b.drop_last();
        assert forall|i: int, j: int| 0 <= i < j < x.len() implies text_less(
            (#[trigger] x[i])@,
            (#[trigger] x[j])@,
        ) by {
            assert(text_less(a[i]@, a[j]@));
        }
        assert forall|i: int, j: int| 0 <= i < j < y.len() implies text_less(
            (#[trigger] y[i])@,
            (#[trigger] y[j])@,
        ) by {
            assert(text_less(b[i]@, b[j]@));
        }
        assert forall|t: Seq<char>| #[trigger] text_set(x).contains(t) implies text_set(y).contains(
            t,
        ) by {
            let k = choose|k: int| 0 <= k < x.len() && (#[trigger] x[k])@ == t;
            assert(text_less(a[k]@, a[a.len() - 1]@));
            assert(a[k]@ == t);
            assert(text_set(a).contains(t));
            let w = choose|w: int| 0 <= w < b.len() && (#[trigger] b[w])@ == t;
            if w == b.len() - 1 {
                lemma_not_less_itself(t);
            } else {
                assert(y[w]@ == t);
            }
        }
        assert forall|t: Seq<char>| #[trigger] text_set(y).contains(t) implies text_set(x).contains(
            t,
        ) by {
            let k = choose|k: int| 0 <= k < y.len() && (#[trigger] y[k])@ == t;
            assert(text_less(b[k]@, b[b.len() - 1]@));
            assert(b[k]@ == t);
            assert(text_set(b).contains(t));
            let w = choose|w: int| 0 <= w < a.len() && (#[trigger] a[w])@ == t;
            if w == a.len() - 1 {
                lemma_not_less_itself(t);
            } else {
                assert(x[w]@ == t);
            }
        }
        assert(text_set(x) =~= text_set(y));
        order_determines_the_list(x, y);
        assert forall|i: int| 0 <= i < a.len() implies (#[trigger] a[i])@ == b[i]@ by {
            if i < a.len() - 1 {
                assert(x[i]@ == y[i]@);
            }
        }
    }
}

/// Texts are in order by the first character in which they differ, whatever
/// they begin with, and a text comes before those that it begins.
pub proof fn the_first_difference_decides(head: Seq<char>, a: Seq<char>, b: Seq<char>)
    ensures
        a.len() > 0 && b.len() > 0 && a[0] < b[0] ==> text_less(head + a, head + b),
        a.len() > 0 ==> text_less(head, head + a),
        !text_less(head + a, head),
    decreases head.len(),
{
    if head.len() > 0 {
        the_first_difference_decides(head.skip(1), a, b);
        assert((head + a).skip(1) =~= head.skip(1) + a);
        assert((head + b).skip(1) =~= head.skip(1) + b);
    } else {
        assert(head + a =~= a);
        assert(head + b =~= b);
    }
}

/// A list has a text exactly where one of its entries is that text.
pub proof fn a_list_has_its_texts(list: Seq<String>, text: Seq<char>)
    ensures
        text_set(list).contains(text) <==> exists|i: int|
            0 <= i < list.len() && (#[trigger] list[i])@ == text,
{
}

} // verus!
