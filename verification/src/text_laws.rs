//! What trimming, numbers and lines promise.

use vstd::prelude::*;

verus! {

use crate::spawn_tasks::lines;
use crate::text::{
    decimal_text, digits_value, number_text, trimmed, trimming_takes_only_the_white_ends, white_space,
};

/// Of the ASCII characters, white space is the space and the characters from tab
/// to carriage return; no printable one is.
pub proof fn printable_characters_are_not_white(c: char)
    requires
        (c as u32) < 128,
    ensures
        white_space(c) <==> c as u32 == 32 || 9 <= c as u32 <= 13,
{
}

/// White space outside ASCII: the next-line and no-break spaces, and the typographic
/// spaces and separators.
pub proof fn unicode_spaces_are_white(c: char)
    requires
        c as u32 >= 128,
    ensures
        white_space(c) <==> c as u32 == 0x85 || c as u32 == 0xa0 || c as u32 == 0x1680 || 0x2000
            <= c as u32 <= 0x200a || c as u32 == 0x2028 || c as u32 == 0x2029 || c as u32 == 0x202f
            || c as u32 == 0x205f || c as u32 == 0x3000,
{
}

/// Trimming twice is trimming once, and a text that neither begins nor ends with
/// white space stays as it is.
pub proof fn a_trimmed_text_stays(s: Seq<char>)
    ensures
        trimmed(trimmed(s)) == trimmed(s),
        s.len() > 0 && !white_space(s[0]) && !white_space(s.last()) ==> trimmed(s) == s,
        s.len() == 0 ==> trimmed(s) == s,
{
    lemma_solid_text_stays(s);
    lemma_solid_text_stays(trimmed(s));
    trimming_takes_only_the_white_ends(s);
}

proof fn lemma_solid_text_stays(s: Seq<char>)
    ensures
        (s.len() == 0 || (!white_space(s[0]) && !white_space(s.last()))) ==> trimmed(s) == s,
{
    if s.len() == 0 || (!white_space(s[0]) && !white_space(s.last())) {
        assert(s.skip(0) =~= s);
        assert(s.take(s.len() as int) =~= s);
    }
}

/// A number is written so that it reads back, in digits alone, and without a
/// leading zero.
pub proof fn a_number_reads_back(n: nat)
    ensures
        digits_value(decimal_text(n)) == Some(n),
        decimal_text(n).len() > 0,
        forall|i: int| 0 <= i < decimal_text(n).len() ==> '0' <= #[trigger] decimal_text(n)[i] <= '9',
        n > 0 ==> decimal_text(n)[0] != '0',
        n == 0 ==> decimal_text(n).len() == 1,
        n <= u64::MAX ==> number_text(decimal_text(n)) == Some(n),
    decreases n,
{
    if n >= 10 {
        a_number_reads_back(n / 10);
        let head = decimal_text(n / 10);
        assert(decimal_text(n).drop_last() =~= head);
        assert((48 + n % 10) as char as nat == 48 + n % 10);
        assert(n / 10 * 10 + n % 10 == n);
    } else {
        assert(decimal_text(n).drop_last() =~= Seq::<char>::empty());
        assert(digits_value(Seq::<char>::empty()) == Some(0nat));
        assert((48 + n) as char as nat == 48 + n);
    }
}

/// Two numbers are written alike only if they are equal.
pub proof fn numbers_are_told_apart(a: nat, b: nat)
    requires
        decimal_text(a) == decimal_text(b),
    ensures
        a == b,
{
    a_number_reads_back(a);
    a_number_reads_back(b);
}

/// A plus sign before a number changes nothing; a text with any character that
/// is not a digit otherwise, an empty one, and a lone sign are no numbers.
pub proof fn what_is_a_number(s: Seq<char>, i: int)
    ensures
        s.len() > 0 && s[0] != '+' ==> number_text(seq!['+'] + s) == number_text(s),
        s.len() == 0 ==> number_text(s) is None && number_text(seq!['+']) is None,
        0 < i < s.len() && !('0' <= s[i] <= '9') ==> number_text(s) is None,
        s.len() > 0 && s[0] != '+' && !('0' <= s[0] <= '9') ==> number_text(s) is None,
{
    assert((seq!['+'] + s).skip(1) =~= s);
    assert(seq!['+'].skip(1) =~= Seq::<char>::empty());
    if 0 < i < s.len() && !('0' <= s[i] <= '9') {
        assert(s.skip(1)[i - 1] == s[i]);
        lemma_no_digits(s.skip(1), i - 1);
        lemma_no_digits(s, i);
    }
    if s.len() > 0 && s[0] != '+' && !('0' <= s[0] <= '9') {
        lemma_no_digits(s, 0);
    }
}

proof fn lemma_no_digits(s: Seq<char>, i: int)
    requires
        0 <= i < s.len(),
        !('0' <= s[i] <= '9'),
    ensures
        digits_value(s) is None,
    decreases s.len(),
{
    if i < s.len() - 1 {
        assert(s.drop_last()[i] == s[i]);
        lemma_no_digits(s.drop_last(), i);
    }
}

/// One line is the text itself, and lines of two runs stand one below the other.
pub proof fn lines_stand_below_each_other(above: Seq<Seq<char>>, below: Seq<Seq<char>>)
    ensures
        above.len() > 0 && below.len() > 0 ==> lines(above + below) == lines(above) + seq!['\n']
            + lines(below),
        above.len() == 0 ==> lines(above + below) == lines(below),
        above.len() == 1 ==> lines(above) == above[0],
        above.len() == 0 ==> lines(above).len() == 0,
    decreases below.len(),
{
    reveal_strlit("\n");
    assert("\n"@ =~= seq!['\n']);
    if above.len() == 0 {
        assert(above + below =~= below);
    } else if below.len() == 1 {
        assert((above + below).drop_last() =~= above);
        assert((above + below).last() == below[0]);
    } else if below.len() > 1 {
        lines_stand_below_each_other(above, below.drop_last());
        assert((above + below).drop_last() =~= above + below.drop_last());
        assert((above + below).last() == below.last());
        assert(lines(above + below) =~= lines(above) + seq!['\n'] + lines(below));
    }
}

/// Every line is in the text that the lines make, between what is above and what
/// is below it.
pub proof fn every_line_is_there(parts: Seq<Seq<char>>, i: int)
    requires
        0 <= i < parts.len(),
    ensures
        exists|above: Seq<char>, below: Seq<char>|
            lines(parts) == #[trigger] (above + parts[i] + below) && (above.len() == 0
                || above.last() == '\n') && (below.len() == 0 || below[0] == '\n'),
{
    let head = parts.take(i);
    let tail = parts.skip(i + 1);
    let one = seq![parts[i]];
    assert(parts =~= head + (one + tail));
    lines_stand_below_each_other(head, one + tail);
    lines_stand_below_each_other(one, tail);
    lines_stand_below_each_other(one, Seq::empty());
    let above = if head.len() == 0 {
        Seq::<char>::empty()
    } else {
        lines(head) + seq!['\n']
    };
    let below = if tail.len() == 0 {
        Seq::<char>::empty()
    } else {
        seq!['\n'] + lines(tail)
    };
    if tail.len() == 0 {
        assert(one + tail =~= one);
    }
    assert(lines(parts) =~= above + parts[i] + below);
}

} // verus!
