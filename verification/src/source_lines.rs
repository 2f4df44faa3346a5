//! Lines of a source that is read in pieces, each retained up to a bound.

use vstd::prelude::*;

verus! {

/// A line of a source, with its line feed where it has one.
#[derive(Debug, PartialEq, Eq)]
pub enum BoundedSourceLine {
    Retained(Vec<u8>),
    Oversized,
}

/// A line as the contracts speak of it.
pub ghost enum LineModel {
    Retained(Seq<u8>),
    Oversized,
}

impl View for BoundedSourceLine {
    type V = LineModel;

    open spec fn view(&self) -> LineModel {
        match self {
            BoundedSourceLine::Retained(bytes) => LineModel::Retained(bytes@),
            BoundedSourceLine::Oversized => LineModel::Oversized,
        }
    }
}

/// What the reader does next.
#[derive(Debug, PartialEq, Eq)]
pub enum LineStep {
    /// Drop so many bytes of the piece and offer the next piece.
    More { consumed: usize },
    /// Drop so many bytes of the piece; a line is complete.
    Line { consumed: usize, line: BoundedSourceLine },
    /// The source is read.
    End,
}

/// A step as the contracts speak of it.
pub ghost enum StepModel {
    More { consumed: nat },
    Line { consumed: nat, line: LineModel },
    End,
}

impl View for LineStep {
    type V = StepModel;

    open spec fn view(&self) -> StepModel {
        match self {
            LineStep::More { consumed } => StepModel::More { consumed: *consumed as nat },
            LineStep::Line { consumed, line } => StepModel::Line {
                consumed: *consumed as nat,
                line: line@,
            },
            LineStep::End => StepModel::End,
        }
    }
}

/// Reads the lines of a source up to the boundary at which it was captured.
pub struct BoundedLineReader {
    remaining: u64,
    retained_limit: usize,
    retained: Vec<u8>,
    oversized: bool,
    saw_bytes: bool,
    seen: Ghost<Seq<u8>>,
}

/// The abstract state of a reader.
#[verifier::ext_equal]
pub ghost struct LineReaderModel {
    /// The bytes of the captured source that are still unread.
    pub remaining: nat,
    pub retained_limit: nat,
    /// The part of the current line that was read.
    pub seen: Seq<u8>,
}

/// A line as far as it is retained.
pub open spec fn bounded(bytes: Seq<u8>, retained_limit: nat) -> LineModel {
    if bytes.len() > retained_limit {
        LineModel::Oversized
    } else {
        LineModel::Retained(bytes)
    }
}

/// Whether a line feed is among bytes.
pub open spec fn has_line_feed(bytes: Seq<u8>) -> bool {
    bytes.contains(10u8)
}

/// The bytes up to and with the first line feed, or all of them.
pub open spec fn first_line(bytes: Seq<u8>) -> Seq<u8>
    decreases bytes.len(),
{
    if bytes.len() == 0 {
        bytes
    } else if bytes[0] == 10u8 {
        bytes.take(1)
    } else {
        seq![bytes[0]] + first_line(bytes.skip(1))
    }
}

/// The part of a piece that lies before the captured boundary.
pub open spec fn within(piece: Seq<u8>, remaining: nat) -> Seq<u8> {
    if piece.len() > remaining {
        piece.take(remaining as int)
    } else {
        piece
    }
}

/// One piece of the source; an empty one is its end.
pub open spec fn piece_step(s: LineReaderModel, piece: Seq<u8>) -> (LineReaderModel, StepModel) {
    let done = LineReaderModel { seen: Seq::empty(), ..s };
    if s.remaining == 0 {
        (s, StepModel::End)
    } else if piece.len() == 0 {
        if s.seen.len() > 0 {
            (done, StepModel::Line { consumed: 0, line: bounded(s.seen, s.retained_limit) })
        } else {
            (s, StepModel::End)
        }
    } else {
        let taken = first_line(within(piece, s.remaining));
        let remaining = (s.remaining - taken.len()) as nat;
        let seen = s.seen + taken;
        if has_line_feed(taken) || remaining == 0 {
            (
                LineReaderModel { remaining, ..done },
                StepModel::Line {
                    consumed: taken.len(),
                    line: bounded(seen, s.retained_limit),
                },
            )
        } else {
            (
                LineReaderModel { remaining, seen, ..s },
                StepModel::More { consumed: taken.len() },
            )
        }
    }
}

/// What every reader keeps: a line that is being read has no line feed yet,
/// and none is held back at the boundary.
pub open spec fn line_reader_inv(s: LineReaderModel) -> bool {
    &&& !has_line_feed(s.seen)
    &&& s.remaining == 0 ==> s.seen.len() == 0
}

proof fn lemma_first_line(bytes: Seq<u8>)
    ensures
        first_line(bytes).is_prefix_of(bytes),
        bytes.len() > 0 ==> first_line(bytes).len() > 0,
        !has_line_feed(bytes) ==> first_line(bytes) == bytes,
        has_line_feed(bytes) ==> first_line(bytes).len() > 0 && first_line(bytes).last() == 10u8
            && !has_line_feed(first_line(bytes).drop_last()),
    decreases bytes.len(),
{
    if bytes.len() > 0 {
        let rest = bytes.skip(1);
        if bytes[0] == 10u8 {
            assert(bytes.take(1).drop_last() =~= Seq::<u8>::empty());
            assert(has_line_feed(bytes));
        } else {
            lemma_first_line(rest);
            let line = first_line(rest);
            let whole = seq![bytes[0]] + line;
            assert(whole =~= bytes.subrange(0, whole.len() as int)) by {
                assert forall|i: int| 0 <= i < whole.len() implies whole[i] == bytes[i] by {
                    if i > 0 {
                        assert(line[i - 1] == rest[i - 1]);
                    }
                }
            }
            if has_line_feed(bytes) {
                let k = choose|k: int| 0 <= k < bytes.len() && bytes[k] == 10u8;
                assert(rest[k - 1] == 10u8);
                assert(whole.last() == line.last());
                assert(whole.drop_last() =~= seq![bytes[0]] + line.drop_last());
                assert forall|i: int| 0 <= i < whole.drop_last().len() implies whole.drop_last()[i]
                    != 10u8 by {
                    if i > 0 {
                        assert(line.drop_last()[i - 1] != 10u8);
                    }
                }
            } else {
                assert forall|i: int| 0 <= i < rest.len() implies rest[i] != 10u8 by {
                    assert(bytes[i + 1] != 10u8);
                }
                assert(whole =~= bytes);
            }
        }
    }
}

/// Bytes without a line feed before it leave the first line to what follows.
proof fn lemma_line_after(head: Seq<u8>, tail: Seq<u8>)
    requires
        !has_line_feed(head),
    ensures
        first_line(head + tail) == head + first_line(tail),
    decreases head.len(),
{
    if head.len() == 0 {
        assert(head + tail =~= tail);
        assert(head + first_line(tail) =~= first_line(tail));
    } else {
        let rest = head.skip(1);
        assert forall|i: int| 0 <= i < rest.len() implies rest[i] != 10u8 by {
            assert(head[i + 1] != 10u8);
        }
        assert(head[0] != 10u8);
        lemma_line_after(rest, tail);
        assert((head + tail).skip(1) =~= rest + tail);
        assert(seq![head[0]] + (rest + first_line(tail)) =~= head + first_line(tail));
    }
}

/// Bytes with a line feed decide the first line of whatever they begin.
proof fn lemma_line_within(head: Seq<u8>, tail: Seq<u8>)
    requires
        has_line_feed(head),
    ensures
        first_line(head + tail) == first_line(head),
    decreases head.len(),
{
    let k = choose|k: int| 0 <= k < head.len() && head[k] == 10u8;
    if head[0] == 10u8 {
        assert((head + tail).take(1) =~= head.take(1));
    } else {
        let rest = head.skip(1);
        assert(rest[k - 1] == 10u8);
        lemma_line_within(rest, tail);
        assert((head + tail).skip(1) =~= rest + tail);
    }
}

impl View for BoundedLineReader {
    type V = LineReaderModel;

    closed spec fn view(&self) -> LineReaderModel {
        LineReaderModel {
            remaining: self.remaining as nat,
            retained_limit: self.retained_limit as nat,
            seen: self.seen@,
        }
    }
}

impl BoundedLineReader {
    pub closed spec fn wf(&self) -> bool {
        &&& line_reader_inv(self@)
        &&& self.oversized == (self.seen@.len() > self.retained_limit)
        &&& !self.oversized ==> self.retained@ == self.seen@
        &&& self.saw_bytes == (self.seen@.len() > 0)
    }

    /// What every reader keeps, over its model.
    pub proof fn inv_of_wf(&self)
        requires
            self.wf(),
        ensures
            line_reader_inv(self@),
    {
    }

    /// A reader of a source of which so many bytes were captured.
    pub fn new(captured_bytes: u64, retained_limit: usize) -> (r: Self)
        ensures
            r.wf(),
            r@ == (LineReaderModel {
                remaining: captured_bytes as nat,
                retained_limit: retained_limit as nat,
                seen: Seq::empty(),
            }),
    {
        BoundedLineReader {
            remaining: captured_bytes,
            retained_limit,
            retained: Vec::new(),
            oversized: false,
            saw_bytes: false,
            seen: Ghost(Seq::empty()),
        }
    }

    /// The bytes before the captured boundary that are still unread.
    pub fn remaining(&self) -> (r: u64)
        ensures
            r == self@.remaining,
    {
        self.remaining
    }

    fn take_line(&mut self) -> (r: BoundedSourceLine)
        requires
            old(self).oversized == (old(self).seen@.len() > old(self).retained_limit),
            !old(self).oversized ==> old(self).retained@ == old(self).seen@,
        ensures
            final(self).wf(),
            final(self)@ == (LineReaderModel { seen: Seq::empty(), ..old(self)@ }),
            r@ == bounded(old(self)@.seen, old(self)@.retained_limit),
    {
        let mut retained: Vec<u8> = Vec::new();
        std::mem::swap(&mut retained, &mut self.retained);
        let line = if self.oversized {
            BoundedSourceLine::Oversized
        } else {
            BoundedSourceLine::Retained(retained)
        };
        self.retained = Vec::new();
        self.oversized = false;
        self.saw_bytes = false;
        self.seen = Ghost(Seq::empty());
        line
    }

    /// Keeps the read part of a line as far as the bound allows.
    fn retain(&mut self, piece: &[u8], consumed: usize)
        requires
            consumed <= piece@.len(),
            old(self).oversized == (old(self).seen@.len() > old(self).retained_limit),
            !old(self).oversized ==> old(self).retained@ == old(self).seen@,
        ensures
            final(self).oversized == (final(self).seen@.len() > final(self).retained_limit),
            !final(self).oversized ==> final(self).retained@ == final(self).seen@,
            final(self).seen@ == old(self).seen@ + piece@.take(consumed as int),
            final(self).saw_bytes == old(self).saw_bytes,
            final(self).remaining == old(self).remaining,
            final(self).retained_limit == old(self).retained_limit,
    {
        let ghost before = self.seen@;
        let ghost taken = piece@.take(consumed as int);
        if !self.oversized {
            assert(self.retained.len() == self.retained@.len());
            if consumed > self.retained_limit || self.retained.len() > self.retained_limit
                - consumed {
                self.retained = Vec::new();
                self.oversized = true;
            } else {
                let mut kept: Vec<u8> = Vec::new();
                std::mem::swap(&mut kept, &mut self.retained);
                let mut i: usize = 0;
                assert(kept@ =~= before + taken.take(0));
                while i < consumed
                    invariant
                        i <= consumed <= piece@.len(),
                        taken == piece@.take(consumed as int),
                        kept@ == before + taken.take(i as int),
                    decreases consumed - i,
                {
                    kept.push(piece[i]);
                    assert(kept@ =~= before + taken.take(i + 1));
                    i = i + 1;
                }
                assert(taken.take(i as int) =~= taken);
                self.retained = kept;
            }
        }
        self.seen = Ghost(before + taken);
    }

    /// Offers the next piece of the source; an empty piece is its end.
    pub fn offer(&mut self, piece: &[u8]) -> (r: LineStep)
        requires
            old(self).wf(),
        ensures
            final(self).wf(),
            (final(self)@, r@) == piece_step(old(self)@, piece@),
    {
        if self.remaining == 0 {
            return LineStep::End;
        }
        assert(piece.len() == piece@.len());
        if piece.len() == 0 {
            if self.saw_bytes {
                let line = self.take_line();
                return LineStep::Line { consumed: 0, line };
            }
            return LineStep::End;
        }
        let available: usize = if piece.len() as u64 > self.remaining {
            self.remaining as usize
        } else {
            piece.len()
        };
        assert(within(piece@, self.remaining as nat) =~= piece@.take(available as int));
        let (consumed, complete) = line_length(piece, available);
        let ghost before = self.seen@;
        let ghost taken = piece@.take(consumed as int);
        self.retain(piece, consumed);
        self.saw_bytes = true;
        self.remaining = self.remaining - consumed as u64;
        if complete || self.remaining == 0 {
            let line = self.take_line();
            return LineStep::Line { consumed, line };
        }
        proof {
            assert forall|i: int| 0 <= i < self.seen@.len() implies self.seen@[i] != 10u8 by {
                if i < before.len() {
                    assert(before[i] != 10u8);
                } else {
                    assert(taken[i - before.len()] != 10u8);
                }
            }
        }
        LineStep::More { consumed }
    }
}

/// How much of the first part of a piece belongs to its first line, and whether
/// that line is complete.
fn line_length(piece: &[u8], available: usize) -> (r: (usize, bool))
    requires
        0 < available <= piece@.len(),
    ensures
        0 < r.0 <= available,
        piece@.take(r.0 as int) == first_line(piece@.take(available as int)),
        r.1 == has_line_feed(piece@.take(r.0 as int)),
{
    let ghost part = piece@.take(available as int);
    let mut consumed: usize = 0;
    while consumed < available
        invariant
            consumed <= available <= piece@.len(),
            part == piece@.take(available as int),
            !has_line_feed(part.take(consumed as int)),
        decreases available - consumed,
    {
        assert(part[consumed as int] == piece@[consumed as int]);
        if piece[consumed] == 10 {
            proof {
                let head = part.take(consumed as int);
                let tail = part.skip(consumed as int);
                let taken = piece@.take(consumed + 1);
                assert(part =~= head + tail);
                lemma_line_after(head, tail);
                assert(tail[0] == 10u8);
                assert(head + tail.take(1) =~= taken);
                assert(taken[consumed as int] == 10u8);
            }
            return (consumed + 1, true);
        }
        proof {
            let next = part.take(consumed + 1);
            assert forall|i: int| 0 <= i < next.len() implies next[i] != 10u8 by {
                if i < consumed {
                    assert(part.take(consumed as int)[i] != 10u8);
                }
            }
        }
        consumed = consumed + 1;
    }
    proof {
        assert(part.take(consumed as int) =~= part);
        lemma_first_line(part);
    }
    (available, false)
}

/// The line that a reader is to give next when so much of the source is left.
pub open spec fn next_line(s: LineReaderModel, rest: Seq<u8>) -> Seq<u8> {
    first_line(s.seen + within(rest, s.remaining))
}

/// In what pieces a source is read makes no difference: a line that comes out
/// is the next line of the source up to the captured boundary, and a piece that
/// completes none leaves the next line what it was.
pub proof fn pieces_make_no_difference(s: LineReaderModel, rest: Seq<u8>, n: int)
    requires
        line_reader_inv(s),
        s.remaining > 0,
        0 < n <= rest.len(),
    ensures
        line_reader_inv(piece_step(s, rest.take(n)).0),
        match piece_step(s, rest.take(n)) {
            (after, StepModel::Line { consumed, line }) => {
                &&& line == bounded(next_line(s, rest), s.retained_limit)
                &&& after.remaining + consumed == s.remaining
                &&& after.seen.len() == 0
            },
            (after, StepModel::More { consumed }) => {
                &&& after.remaining + consumed == s.remaining
                &&& consumed == n
                &&& next_line(after, rest.skip(consumed as int)) == next_line(s, rest)
            },
            (after, StepModel::End) => false,
        },
{
    let piece = rest.take(n);
    let part = within(piece, s.remaining);
    let all = within(rest, s.remaining);
    let taken = first_line(part);
    lemma_first_line(part);
    lemma_line_after(s.seen, all);
    let more = all.skip(part.len() as int);
    assert(all =~= part + more);
    let remaining = (s.remaining - taken.len()) as nat;
    if has_line_feed(part) {
        assert(taken[taken.len() - 1] == 10u8);
        lemma_line_within(part, more);
    } else {
        assert(taken == part);
        lemma_line_after(part, more);
        if remaining == 0 {
            assert(more =~= Seq::<u8>::empty());
            assert(part + first_line(more) =~= part);
        } else {
            let after = piece_step(s, piece).0;
            assert(after.seen == s.seen + part);
            assert forall|i: int| 0 <= i < after.seen.len() implies after.seen[i] != 10u8 by {
                if i < s.seen.len() {
                    assert(s.seen[i] != 10u8);
                } else {
                    assert(part[i - s.seen.len()] != 10u8);
                }
            }
            lemma_line_after(after.seen, within(rest.skip(n), remaining));
            assert(within(rest.skip(n), remaining) =~= more);
            assert(s.seen + (part + first_line(more)) =~= after.seen + first_line(more));
        }
    }
}

/// The first line of bytes ends with its line feed, the only one in it; without
/// a line feed all the bytes are the line.
pub proof fn a_line_ends_with_its_feed(line: Seq<u8>, rest: Seq<u8>)
    requires
        !line.contains(10u8),
    ensures
        first_line(line + seq![10u8] + rest) == line + seq![10u8],
        first_line(line) == line,
    decreases line.len(),
{
    let whole = line + seq![10u8] + rest;
    if line.len() > 0 {
        let tail = line.skip(1);
        assert(line[0] != 10u8);
        assert forall|i: int| 0 <= i < tail.len() implies tail[i] != 10u8 by {
            assert(tail[i] == line[i + 1]);
        }
        a_line_ends_with_its_feed(tail, rest);
        assert(whole.skip(1) =~= tail + seq![10u8] + rest);
        assert(seq![line[0]] + (tail + seq![10u8]) =~= line + seq![10u8]);
        assert(seq![line[0]] + tail =~= line);
        assert(whole[0] == line[0]);
    } else {
        assert(whole[0] == 10u8);
        assert(whole.take(1) =~= line + seq![10u8]);
    }
}

/// A line is kept whole as long as it is within the bound, and else not at all;
/// nothing is read beyond the captured boundary.
pub proof fn lines_are_kept_whole_within_bounds(bytes: Seq<u8>, limit: nat)
    ensures
        bytes.len() <= limit ==> bounded(bytes, limit) == LineModel::Retained(bytes),
        bytes.len() > limit ==> bounded(bytes, limit) is Oversized,
        within(bytes, limit).is_prefix_of(bytes),
        within(bytes, limit).len() == if bytes.len() <= limit {
            bytes.len()
        } else {
            limit
        },
{
}

/// At the end of the source what was read of a line is a line, if anything was;
/// at the boundary there is nothing more.
pub proof fn the_last_line_may_lack_a_feed(s: LineReaderModel, piece: Seq<u8>)
    ensures
        s.remaining == 0 ==> piece_step(s, piece) == (s, StepModel::End),
        s.remaining > 0 && s.seen.len() == 0 ==> piece_step(s, Seq::empty()) == (s, StepModel::End),
        s.remaining > 0 && s.seen.len() > 0 ==> {
            let (t, step) = piece_step(s, Seq::empty());
            &&& t.seen.len() == 0 && t.remaining == s.remaining && t.retained_limit
                == s.retained_limit
            &&& step == (StepModel::Line {
                consumed: 0,
                line: if s.seen.len() <= s.retained_limit {
                    LineModel::Retained(s.seen)
                } else {
                    LineModel::Oversized
                },
            })
        },
{
}

} // verus!
