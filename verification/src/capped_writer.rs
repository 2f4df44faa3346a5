//! A byte buffer with a limit that no write may cross.

use vstd::prelude::*;

verus! {

/// Why a write was refused.
#[derive(Clone, Copy, Debug, PartialEq, Eq, Structural)]
pub enum CappedWriteError {
    SizeOverflow,
    LimitExceeded,
}

impl CappedWriteError {
    /// What the error says.
    pub fn message(self) -> (r: &'static str)
        ensures
            r@ == (match self {
                CappedWriteError::SizeOverflow => "rollout debug attachment size overflow"@,
                CappedWriteError::LimitExceeded => "rollout debug attachment limit exceeded"@,
            }),
    {
        match self {
            CappedWriteError::SizeOverflow => "rollout debug attachment size overflow",
            CappedWriteError::LimitExceeded => "rollout debug attachment limit exceeded",
        }
    }
}

/// Holds what was written to it, up to a limit. A write is taken whole or not
/// at all.
#[derive(Debug)]
pub struct CappedWriter {
    buffer: Vec<u8>,
    limit: usize,
    exceeded: bool,
}

/// The abstract state of a capped writer.
#[verifier::ext_equal]
pub ghost struct CappedModel {
    pub buffer: Seq<u8>,
    pub limit: usize,
    pub exceeded: bool,
}

/// One write: all of it, or none.
pub open spec fn write_step(s: CappedModel, bytes: Seq<u8>) -> (
    CappedModel,
    Result<usize, CappedWriteError>,
) {
    let next = s.buffer.len() + bytes.len();
    if next > usize::MAX {
        (CappedModel { exceeded: true, ..s }, Err(CappedWriteError::SizeOverflow))
    } else if next > s.limit {
        (CappedModel { exceeded: true, ..s }, Err(CappedWriteError::LimitExceeded))
    } else {
        (CappedModel { buffer: s.buffer + bytes, ..s }, Ok(bytes.len() as usize))
    }
}

impl View for CappedWriter {
    type V = CappedModel;

    closed spec fn view(&self) -> CappedModel {
        CappedModel { buffer: self.buffer@, limit: self.limit, exceeded: self.exceeded }
    }
}

impl CappedWriter {
    /// What every writer keeps: it never holds more than its limit.
    pub open spec fn wf(&self) -> bool {
        self@.buffer.len() <= self@.limit
    }

    /// An empty writer.
    pub fn new(limit: usize) -> (r: Self)
        ensures
            r.wf(),
            r@ == (CappedModel { buffer: Seq::empty(), limit, exceeded: false }),
    {
        CappedWriter { buffer: Vec::new(), limit, exceeded: false }
    }

    /// Writes bytes; the answer is how many there were.
    pub fn write(&mut self, bytes: &[u8]) -> (r: Result<usize, CappedWriteError>)
        requires
            old(self).wf(),
        ensures
            final(self).wf(),
            (final(self)@, r) == write_step(old(self)@, bytes@),
    {
        assert(self.buffer.len() == self.buffer@.len());
        assert(bytes.len() == bytes@.len());
        match self.buffer.len().checked_add(bytes.len()) {
            None => {
                self.exceeded = true;
                Err(CappedWriteError::SizeOverflow)
            },
            Some(next) => {
                if next > self.limit {
                    self.exceeded = true;
                    return Err(CappedWriteError::LimitExceeded);
                }
                let ghost before = self.buffer@;
                self.buffer.extend_from_slice(bytes);
                assert(self.buffer@ =~= before + bytes@);
                Ok(bytes.len())
            },
        }
    }

    /// Whether a write was refused.
    pub fn exceeded(&self) -> (r: bool)
        ensures
            r == self@.exceeded,
    {
        self.exceeded
    }

    /// What was written.
    pub fn into_inner(self) -> (r: Vec<u8>)
        ensures
            r@ == self@.buffer,
    {
        self.buffer
    }
}

/// What a sequence of writes leaves behind.
pub open spec fn after_writes(s: CappedModel, writes: Seq<Seq<u8>>) -> CappedModel
    decreases writes.len(),
{
    if writes.len() == 0 {
        s
    } else {
        write_step(after_writes(s, writes.drop_last()), writes.last()).0
    }
}

/// Whatever is written, a writer within its limit stays within it, keeps what
/// it held, and once it has refused a write it says so for good.
pub proof fn writes_never_cross_the_limit(s: CappedModel, writes: Seq<Seq<u8>>)
    requires
        s.buffer.len() <= s.limit,
    ensures
        after_writes(s, writes).limit == s.limit,
        after_writes(s, writes).buffer.len() <= s.limit,
        s.buffer.is_prefix_of(after_writes(s, writes).buffer),
        s.exceeded ==> after_writes(s, writes).exceeded,
    decreases writes.len(),
{
    if writes.len() > 0 {
        writes_never_cross_the_limit(s, writes.drop_last());
        let before = after_writes(s, writes.drop_last());
        let after = write_step(before, writes.last()).0;
        assert(before.buffer.is_prefix_of(after.buffer));
        assert(s.buffer.is_prefix_of(after.buffer)) by {
            assert(after.buffer.subrange(0, s.buffer.len() as int) =~= before.buffer.subrange(
                0,
                s.buffer.len() as int,
            ));
        }
    }
}

/// A write is taken whole where all of it fits within the limit, and is then the
/// end of what the writer holds; else nothing of it is taken, and the writer
/// says so from then on.
pub proof fn a_write_is_taken_whole_or_not_at_all(s: CappedModel, bytes: Seq<u8>)
    requires
        s.buffer.len() <= s.limit,
    ensures
        ({
            let (t, r) = write_step(s, bytes);
            &&& r is Ok <==> s.buffer.len() + bytes.len() <= s.limit
            &&& r matches Ok(n) ==> {
                &&& n == bytes.len()
                &&& t.buffer.len() == s.buffer.len() + bytes.len()
                &&& t.buffer.take(s.buffer.len() as int) == s.buffer
                &&& t.buffer.skip(s.buffer.len() as int) == bytes
                &&& t.exceeded == s.exceeded && t.limit == s.limit
            }
            &&& r matches Err(error) ==> {
                &&& t.buffer == s.buffer && t.limit == s.limit && t.exceeded
                &&& error == CappedWriteError::SizeOverflow <==> s.buffer.len() + bytes.len()
                    > usize::MAX
            }
        }),
{
}

} // verus!
