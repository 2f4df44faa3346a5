//! Character-level text operations with exact contracts.

use vstd::prelude::*;
use vstd::utf8::encode_utf8;

verus! {

/// `String::push` appends one character at the end of the string.
pub assume_specification[ std::string::String::push ](s: &mut std::string::String, c: char)
    ensures
        final(s)@ == old(s)@.push(c),
;

/// The number of bytes that a text occupies in UTF-8.
pub open spec fn byte_len(s: Seq<char>) -> nat {
    encode_utf8(s).len()
}

/// The Unicode `White_Space` property.
pub open spec fn white_space(c: char) -> bool {
    ||| '\u{9}' <= c <= '\u{d}'
    ||| c == ' '
    ||| c == '\u{85}'
    ||| c == '\u{a0}'
    ||| c == '\u{1680}'
    ||| '\u{2000}' <= c <= '\u{200a}'
    ||| c == '\u{2028}'
    ||| c == '\u{2029}'
    ||| c == '\u{202f}'
    ||| c == '\u{205f}'
    ||| c == '\u{3000}'
}

/// Whether a text holds nothing but white space.
pub open spec fn blank(s: Seq<char>) -> bool {
    forall|i: int| 0 <= i < s.len() ==> white_space(#[trigger] s[i])
}

/// The number of leading white-space characters.
pub open spec fn leading_white(s: Seq<char>) -> nat
    decreases s.len(),
{
    if s.len() > 0 && white_space(s[0]) {
        1 + leading_white(s.skip(1))
    } else {
        0
    }
}

/// The number of characters before the trailing white space.
pub open spec fn trimmed_end(s: Seq<char>) -> nat
    decreases s.len(),
{
    if s.len() > 0 && white_space(s.last()) {
        trimmed_end(s.drop_last())
    } else {
        s.len()
    }
}

/// A text without its leading and trailing white space.
pub open spec fn trimmed(s: Seq<char>) -> Seq<char> {
    let head = s.skip(leading_white(s) as int);
    head.take(trimmed_end(head) as int)
}

/// The decimal digit characters of `n`, most significant first.
pub open spec fn decimal_text(n: nat) -> Seq<char>
    decreases n,
{
    if n < 10 {
        seq![digit_char(n)]
    } else {
        decimal_text(n / 10).push(digit_char(n % 10))
    }
}

pub open spec fn digit_char(d: nat) -> char {
    (48 + d) as char
}

pub fn is_white_space(c: char) -> (r: bool)
    ensures
        r == white_space(c),
{
    ('\u{9}' <= c && c <= '\u{d}') || c == ' ' || c == '\u{85}' || c == '\u{a0}' || c == '\u{1680}'
        || ('\u{2000}' <= c && c <= '\u{200a}') || c == '\u{2028}' || c == '\u{2029}' || c
        == '\u{202f}' || c == '\u{205f}' || c == '\u{3000}'
}

/// The characters of a text.
pub fn to_chars(s: &str) -> (r: Vec<char>)
    ensures
        r@ == s@,
{
    let mut out: Vec<char> = Vec::new();
    for c in it: s.chars()
        invariant
            it.seq() == s@,
            out@ == s@.take(it.index() as int),
    {
        out.push(c);
        proof {
            assert(s@.take(it.index() + 1) =~= s@.take(it.index() as int).push(c));
        }
    }
    proof {
        assert(s@.take(s@.len() as int) =~= s@);
    }
    out
}

/// The text made of the characters `chars[from..to]`.
pub fn from_chars(chars: &Vec<char>, from: usize, to: usize) -> (r: String)
    requires
        from <= to <= chars@.len(),
    ensures
        r@ == chars@.subrange(from as int, to as int),
{
    let mut out = String::new();
    let mut i: usize = from;
    while i < to
        invariant
            from <= i <= to <= chars@.len(),
            out@ == chars@.subrange(from as int, i as int),
        decreases to - i,
    {
        out.push(chars[i]);
        proof {
            assert(chars@.subrange(from as int, i + 1) =~= chars@.subrange(
                from as int,
                i as int,
            ).push(chars@[i as int]));
        }
        i = i + 1;
    }
    out
}

/// Whether two texts have the same characters.
pub fn same_text(a: &str, b: &str) -> (r: bool)
    ensures
        r == (a@ == b@),
{
    broadcast use vstd::utf8::encode_utf8_decode_utf8;

    let x = a.as_bytes();
    let y = b.as_bytes();
    if x.len() != y.len() {
        return false;
    }
    let mut i: usize = 0;
    while i < x.len()
        invariant
            i <= x@.len(),
            x@.len() == y@.len(),
            x@ == encode_utf8(a@),
            y@ == encode_utf8(b@),
            forall|j: int| 0 <= j < i ==> x@[j] == y@[j],
        decreases x@.len() - i,
    {
        if x[i] != y[i] {
            return false;
        }
        i = i + 1;
    }
    proof {
        assert(x@ =~= y@);
        assert(vstd::utf8::decode_utf8(encode_utf8(a@)) == a@);
        assert(vstd::utf8::decode_utf8(encode_utf8(b@)) == b@);
    }
    true
}

/// Whether a text holds nothing but white space.
pub fn is_blank(s: &str) -> (r: bool)
    ensures
        r == blank(s@),
{
    let chars = to_chars(s);
    let mut i: usize = 0;
    while i < chars.len()
        invariant
            i <= chars@.len(),
            chars@ == s@,
            forall|j: int| 0 <= j < i ==> white_space(#[trigger] s@[j]),
        decreases chars@.len() - i,
    {
        if !is_white_space(chars[i]) {
            assert(!white_space(s@[i as int]));
            return false;
        }
        i = i + 1;
    }
    true
}

/// The size of a text in bytes.
pub fn byte_size(s: &str) -> (r: usize)
    ensures
        r == byte_len(s@),
{
    s.as_bytes().len()
}

pub proof fn lemma_encode_concat(a: Seq<char>, b: Seq<char>)
    ensures
        encode_utf8(a + b) == encode_utf8(a) + encode_utf8(b),
        byte_len(a + b) == byte_len(a) + byte_len(b),
    decreases a.len(),
{
    if a.len() == 0 {
        assert(a + b =~= b);
        assert(encode_utf8(a) =~= Seq::<u8>::empty());
        assert(encode_utf8(a) + encode_utf8(b) =~= encode_utf8(b));
    } else {
        lemma_encode_concat(a.drop_first(), b);
        assert((a + b).drop_first() =~= a.drop_first() + b);
        assert((a + b)[0] == a[0]);
        assert(encode_utf8(a + b) =~= encode_utf8(a) + encode_utf8(b));
    }
}


proof fn lemma_leading_white(s: Seq<char>, n: int)
    requires
        0 <= n <= s.len(),
        forall|j: int| 0 <= j < n ==> white_space(#[trigger] s[j]),
        n < s.len() ==> !white_space(s[n]),
    ensures
        leading_white(s) == n,
    decreases s.len(),
{
    if n > 0 {
        assert(white_space(s[0]));
        assert forall|j: int| 0 <= j < n - 1 implies white_space(#[trigger] s.skip(1)[j]) by {
            assert(s.skip(1)[j] == s[j + 1]);
        }
        lemma_leading_white(s.skip(1), n - 1);
    }
}

proof fn lemma_trimmed_end(s: Seq<char>, n: int)
    requires
        0 <= n <= s.len(),
        forall|j: int| n <= j < s.len() ==> white_space(#[trigger] s[j]),
        n > 0 ==> !white_space(s[n - 1]),
    ensures
        trimmed_end(s) == n,
    decreases s.len(),
{
    if n < s.len() {
        assert(white_space(s[s.len() - 1]));
        assert forall|j: int| n <= j < s.drop_last().len() implies white_space(
            #[trigger] s.drop_last()[j],
        ) by {
            assert(s.drop_last()[j] == s[j]);
        }
        lemma_trimmed_end(s.drop_last(), n);
    }
}

/// A text without its leading and trailing white space.
pub fn trim(s: &str) -> (r: String)
    ensures
        r@ == trimmed(s@),
{
    let chars = to_chars(s);
    let mut from: usize = 0;
    while from < chars.len() && is_white_space(chars[from])
        invariant
            from <= chars@.len(),
            chars@ == s@,
            forall|j: int| 0 <= j < from ==> white_space(#[trigger] s@[j]),
        decreases chars@.len() - from,
    {
        from = from + 1;
    }
    let mut to: usize = chars.len();
    while to > from && is_white_space(chars[to - 1])
        invariant
            from <= to <= chars@.len(),
            chars@ == s@,
            forall|j: int| to <= j < s@.len() ==> white_space(#[trigger] s@[j]),
        decreases to,
    {
        to = to - 1;
    }
    proof {
        lemma_leading_white(s@, from as int);
        let head = s@.skip(from as int);
        let end = to - from;
        assert forall|j: int| end <= j < head.len() implies white_space(#[trigger] head[j]) by {
            assert(head[j] == s@[j + from]);
        }
        if end > 0 {
            assert(head[end - 1] == s@[to - 1]);
        }
        lemma_trimmed_end(head, end as int);
        assert(head.take(end as int) =~= s@.subrange(from as int, to as int));
    }
    from_chars(&chars, from, to)
}

/// A trimmed text is empty exactly where the text is blank.
pub proof fn trimmed_is_empty_where_blank(s: Seq<char>)
    ensures
        trimmed(s).len() == 0 <==> blank(s),
{
    lemma_leading_bounds(s);
    let n = leading_white(s) as int;
    let head = s.skip(n);
    lemma_end_bounds(head);
    let e = trimmed_end(head) as int;
    if blank(s) {
        if n < s.len() {
            assert(white_space(s[n]));
        }
    } else {
        let i = choose|i: int| 0 <= i < s.len() && !white_space(#[trigger] s[i]);
        assert(i >= n);
        assert(head[i - n] == s[i]);
        assert(i - n < e);
    }
}

proof fn lemma_leading_bounds(s: Seq<char>)
    ensures
        leading_white(s) <= s.len(),
        forall|j: int| 0 <= j < leading_white(s) ==> white_space(#[trigger] s[j]),
        leading_white(s) < s.len() ==> !white_space(s[leading_white(s) as int]),
    decreases s.len(),
{
    if s.len() > 0 && white_space(s[0]) {
        lemma_leading_bounds(s.skip(1));
        assert forall|j: int| 0 <= j < leading_white(s) implies white_space(#[trigger] s[j]) by {
            if j > 0 {
                assert(s.skip(1)[j - 1] == s[j]);
            }
        }
    }
}

proof fn lemma_end_bounds(s: Seq<char>)
    ensures
        trimmed_end(s) <= s.len(),
        forall|j: int| trimmed_end(s) <= j < s.len() ==> white_space(#[trigger] s[j]),
        trimmed_end(s) > 0 ==> !white_space(s[trimmed_end(s) - 1]),
    decreases s.len(),
{
    if s.len() > 0 && white_space(s.last()) {
        lemma_end_bounds(s.drop_last());
        assert forall|j: int| trimmed_end(s) <= j < s.len() implies white_space(
            #[trigger] s[j],
        ) by {
            if j < s.len() - 1 {
                assert(s.drop_last()[j] == s[j]);
            }
        }
    }
}

fn digit(d: u64) -> (r: char)
    requires
        d < 10,
    ensures
        r == digit_char(d as nat),
{
    match d {
        0 => '0',
        1 => '1',
        2 => '2',
        3 => '3',
        4 => '4',
        5 => '5',
        6 => '6',
        7 => '7',
        8 => '8',
        _ => '9',
    }
}

/// A number in decimal, without leading zeros.
pub fn decimal(n: u64) -> (r: String)
    ensures
        r@ == decimal_text(n as nat),
    decreases n,
{
    if n < 10 {
        let mut out = String::new();
        out.push(digit(n));
        assert(out@ =~= decimal_text(n as nat));
        out
    } else {
        let mut out = decimal(n / 10);
        out.push(digit(n % 10));
        out
    }
}

/// The value of a run of decimal digits, where it is one.
pub open spec fn digits_value(s: Seq<char>) -> Option<nat>
    decreases s.len(),
{
    if s.len() == 0 {
        Some(0)
    } else if !('0' <= s.last() <= '9') {
        None
    } else {
        match digits_value(s.drop_last()) {
            Some(head) => Some(head * 10 + (s.last() as nat - 48) as nat),
            None => None,
        }
    }
}

/// The number that a text spells in decimal, an optional `+` before it, where
/// it fits in 64 bits.
pub open spec fn number_text(s: Seq<char>) -> Option<nat> {
    let digits = if s.len() > 0 && s[0] == '+' {
        s.skip(1)
    } else {
        s
    };
    match digits_value(digits) {
        Some(value) => if digits.len() > 0 && value <= u64::MAX {
            Some(value)
        } else {
            None
        },
        None => None,
    }
}

proof fn lemma_digits_prefix(s: Seq<char>, n: int)
    requires
        0 <= n <= s.len(),
        digits_value(s) is Some,
    ensures
        digits_value(s.take(n)) is Some,
        digits_value(s.take(n))->0 <= digits_value(s)->0,
    decreases s.len() - n,
{
    if n == s.len() {
        assert(s.take(n) =~= s);
    } else {
        lemma_digits_prefix(s, n + 1);
        let t = s.take(n + 1);
        assert(t.drop_last() =~= s.take(n));
    }
}

/// Reads a decimal number of at most 64 bits.
pub fn parse_number(s: &str) -> (r: Option<u64>)
    ensures
        (match r {
            Some(n) => Some(n as nat),
            None => None,
        }) == number_text(s@),
{
    let chars = to_chars(s);
    let mut from: usize = 0;
    if chars.len() > 0 && chars[0] == '+' {
        from = 1;
    }
    let ghost digits = s@.skip(from as int);
    proof {
        assert(s@.skip(0) =~= s@);
        assert(digits.take(0) =~= Seq::<char>::empty());
    }
    let mut value: u64 = 0;
    let mut i: usize = from;
    while i < chars.len()
        invariant
            from <= i <= chars@.len(),
            chars@ == s@,
            digits == s@.skip(from as int),
            digits_value(digits.take(i - from)) == Some(value as nat),
            number_text(s@) == (match digits_value(digits) {
                Some(value) => if digits.len() > 0 && value <= u64::MAX {
                    Some(value)
                } else {
                    None
                },
                None => None,
            }),
        decreases chars@.len() - i,
    {
        let c = chars[i];
        proof {
            let upto = digits.take(i - from + 1);
            assert(upto.last() == c);
            assert(upto.drop_last() =~= digits.take(i - from));
            if digits_value(digits) is Some {
                lemma_digits_prefix(digits, i - from + 1);
            }
        }
        let d: u64 = match c {
            '0' => 0,
            '1' => 1,
            '2' => 2,
            '3' => 3,
            '4' => 4,
            '5' => 5,
            '6' => 6,
            '7' => 7,
            '8' => 8,
            '9' => 9,
            _ => {
                return None;
            },
        };
        if value > 1_844_674_407_370_955_161 || (value == 1_844_674_407_370_955_161 && d > 5) {
            return None;
        }
        value = value * 10 + d;
        i = i + 1;
    }
    assert(digits.take(i - from) =~= digits);
    if i == from {
        return None;
    }
    Some(value)
}

/// Trimming takes white space away at both ends, and nothing else: what is left
/// lies in the text with only white space around it, and neither begins nor ends
/// with any.
pub proof fn trimming_takes_only_the_white_ends(s: Seq<char>)
    ensures
        exists|from: int, to: int|
            0 <= from <= to <= s.len() && trimmed(s) == #[trigger] s.subrange(from, to) && blank(
                s.take(from),
            ) && blank(s.skip(to)),
        trimmed(s).len() > 0 ==> !white_space(trimmed(s)[0]) && !white_space(trimmed(s).last()),
{
    lemma_leading_bounds(s);
    let from = leading_white(s) as int;
    let head = s.skip(from);
    lemma_end_bounds(head);
    let to = from + trimmed_end(head);
    assert(trimmed(s) =~= s.subrange(from, to));
    assert forall|j: int| 0 <= j < s.skip(to).len() implies white_space(#[trigger] s.skip(to)[j]) by {
        assert(head[j + to - from] == s.skip(to)[j]);
    }
    assert(blank(s.take(from)));
}

} // verus!
