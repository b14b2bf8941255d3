//! Progress tracking over a byte source.
//!
//! [`ProgressReader`] decorates a [`Source`]: every read delegates to the
//! inner source and, on success, reports the count of bytes actually returned
//! (not requested) before control returns to the caller. Nothing is reported
//! on a failed read, and seeking passes through without a report — progress
//! is measured in bytes read, not bytes sought. The reports are kept in
//! order, as a log the caller consumes; no reordering or buffering of data
//! takes place.

use vstd::prelude::*;
use crate::ArchiveError;
use crate::source::{Source, read_window};

verus! {

/// How many bytes one delegated read asks for at most.
pub const READ_CHUNK: usize = 65536;

/// The total number of bytes a log of progress reports accounts for.
pub open spec fn sum_events(s: Seq<usize>) -> int
    decreases s.len(),
{
    if s.len() == 0 {
        0
    } else {
        sum_events(s.drop_last()) + s.last()
    }
}

/// The bytes still ahead of the cursor, none when the cursor is out of range.
pub open spec fn spec_remaining(data: Seq<u8>, pos: int) -> nat {
    if 0 <= pos <= data.len() {
        (data.len() - pos) as nat
    } else {
        0
    }
}

/// The log one full read-to-end writes when `m` bytes remain: each read
/// returns a full chunk while one is left, then the short tail, and last the
/// empty read that signals the end — a report of 0.
pub open spec fn chunk_log(m: nat) -> Seq<usize>
    decreases m,
{
    if m == 0 {
        seq![0usize]
    } else if m < READ_CHUNK as nat {
        seq![m as usize] + chunk_log(0)
    } else {
        seq![READ_CHUNK] + chunk_log((m - READ_CHUNK) as nat)
    }
}

proof fn lemma_sum_push(s: Seq<usize>, x: usize)
    ensures
        sum_events(s.push(x)) == sum_events(s) + x,
{
    assert(s.push(x).drop_last() =~= s);
}

/// A decorator over a byte source that logs, for every successful read, the
/// number of bytes that read returned.
pub struct ProgressReader<S: Source> {
    inner: S,
    recorded: Vec<usize>,
}

impl<S: Source> ProgressReader<S> {
    /// The contents of the wrapped source.
    pub closed spec fn data(&self) -> Seq<u8> {
        self.inner.data()
    }

    /// The cursor of the wrapped source.
    pub closed spec fn pos(&self) -> int {
        self.inner.pos()
    }

    /// The log of progress reports, in the order they fired.
    pub closed spec fn events(&self) -> Seq<usize> {
        self.recorded@
    }

    /// Wraps a source; the log starts empty.
    pub fn new(inner: S) -> (r: Self)
        ensures
            r.data() == inner.data(),
            r.pos() == inner.pos(),
            r.events() == Seq::<usize>::empty(),
    {
        ProgressReader { inner, recorded: Vec::new() }
    }

    /// Reads from the inner source. On success one report fires, with exactly
    /// the count of bytes returned; on failure none fires.
    pub fn read(&mut self, n: usize) -> (r: Result<Vec<u8>, ArchiveError>)
        ensures
            final(self).data() == old(self).data(),
            match r {
                Ok(b) => {
                    &&& b@ == read_window(old(self).data(), old(self).pos(), n as int)
                    &&& final(self).pos() == old(self).pos() + b@.len()
                    &&& final(self).events() == old(self).events().push(b@.len() as usize)
                },
                Err(_) => {
                    &&& final(self).pos() == old(self).pos()
                    &&& final(self).events() == old(self).events()
                },
            },
    {
        match self.inner.read(n) {
            Ok(chunk) => {
                let m = chunk.len();
                self.recorded.push(m);
                Ok(chunk)
            },
            Err(e) => Err(e),
        }
    }

    /// Seeks the inner source; no report fires.
    pub fn seek(&mut self, offset: u64) -> (r: Result<u64, ArchiveError>)
        ensures
            final(self).data() == old(self).data(),
            final(self).events() == old(self).events(),
            match r {
                Ok(p) => final(self).pos() == offset as int && p == offset,
                Err(_) => final(self).pos() == old(self).pos(),
            },
    {
        self.inner.seek(offset)
    }

    /// Reads the source to its end, one chunk at a time.
    ///
    /// Law: across a full read-to-end of an N-byte source from the start, the
    /// reports sum to exactly N — the clause on `sum_events` says the sum
    /// grows by exactly the bytes the cursor advanced, and on success from
    /// position 0 the cursor ends at N. If the very first read fails, the
    /// cursor has not moved and the log is unchanged: no report fired.
    pub fn read_to_end(&mut self) -> (r: Result<Vec<u8>, ArchiveError>)
        ensures
            final(self).data() == old(self).data(),
            old(self).pos() <= final(self).pos(),
            old(self).events().is_prefix_of(final(self).events()),
            sum_events(final(self).events()) == sum_events(old(self).events()) + final(self).pos()
                - old(self).pos(),
            match r {
                Ok(b) => {
                    &&& b@ == read_window(
                        old(self).data(),
                        old(self).pos(),
                        old(self).data().len() as int,
                    )
                    &&& final(self).pos() == (if 0 <= old(self).pos() <= old(self).data().len() {
                        old(self).data().len() as int
                    } else {
                        old(self).pos()
                    })
                    &&& final(self).events() == old(self).events() + chunk_log(
                        spec_remaining(old(self).data(), old(self).pos()),
                    )
                },
                Err(_) => final(self).pos() == old(self).pos() ==> final(self).events() == old(
                    self,
                ).events(),
            },
    {
        let ghost data0 = self.data();
        let ghost pos0 = self.pos();
        let ghost ev0 = self.events();
        let first = match self.read(READ_CHUNK) {
            Ok(b) => b,
            Err(e) => {
                return Err(e);
            },
        };
        proof {
            lemma_sum_push(ev0, first@.len() as usize);
            assert(ev0.is_prefix_of(self.events()));
        }
        if first.len() == 0 {
            proof {
                assert(read_window(data0, pos0, data0.len() as int) =~= Seq::<u8>::empty());
                assert(chunk_log(spec_remaining(data0, pos0)) =~= seq![0usize]);
                assert(self.events() =~= ev0 + seq![0usize]);
            }
            return Ok(first);
        }
        let ghost rem0 = spec_remaining(data0, pos0);
        proof {
            assert(chunk_log(rem0) == seq![first@.len() as usize] + chunk_log(
                (rem0 - first@.len()) as nat,
            ));
            assert(self.events().skip(ev0.len() as int) =~= seq![first@.len() as usize]);
        }
        let mut out = first;
        loop
            invariant_except_break
                chunk_log(rem0) == self.events().skip(ev0.len() as int) + chunk_log(
                    (data0.len() - self.pos()) as nat,
                ),
            invariant
                data0 == old(self).data(),
                pos0 == old(self).pos(),
                ev0 == old(self).events(),
                self.data() == data0,
                0 <= pos0 < data0.len(),
                pos0 < self.pos() <= data0.len(),
                out@ == data0.subrange(pos0, self.pos()),
                ev0.is_prefix_of(self.events()),
                sum_events(self.events()) == sum_events(ev0) + self.pos() - pos0,
                rem0 == spec_remaining(data0, pos0),
            ensures
                self.data() == data0,
                self.pos() == data0.len(),
                out@ == data0.subrange(pos0, data0.len() as int),
                ev0.is_prefix_of(self.events()),
                sum_events(self.events()) == sum_events(ev0) + self.pos() - pos0,
                self.events().skip(ev0.len() as int) == chunk_log(rem0),
            decreases data0.len() - self.pos(),
        {
            let ghost evp = self.events();
            let ghost remp = (data0.len() - self.pos()) as nat;
            let mut chunk = match self.read(READ_CHUNK) {
                Ok(b) => b,
                Err(e) => {
                    return Err(e);
                },
            };
            proof {
                lemma_sum_push(evp, chunk@.len() as usize);
                assert(ev0.is_prefix_of(self.events())) by {
                    assert(self.events().subrange(0, ev0.len() as int) =~= ev0);
                };
                assert(self.events().skip(ev0.len() as int) =~= evp.skip(ev0.len() as int).push(
                    chunk@.len() as usize,
                ));
            }
            if chunk.len() == 0 {
                proof {
                    assert(chunk_log(remp) =~= seq![0usize]);
                    assert(self.events().skip(ev0.len() as int) =~= evp.skip(ev0.len() as int)
                        + seq![0usize]);
                }
                break ;
            }
            proof {
                assert(chunk_log(remp) == seq![chunk@.len() as usize] + chunk_log(
                    (remp - chunk@.len()) as nat,
                ));
                assert(evp.skip(ev0.len() as int).push(chunk@.len() as usize) =~= evp.skip(
                    ev0.len() as int,
                ) + seq![chunk@.len() as usize]);
                assert(evp.skip(ev0.len() as int) + (seq![chunk@.len() as usize] + chunk_log(
                    (remp - chunk@.len()) as nat,
                )) =~= (evp.skip(ev0.len() as int) + seq![chunk@.len() as usize]) + chunk_log(
                    (remp - chunk@.len()) as nat,
                ));
            }
            out.append(&mut chunk);
            proof {
                assert(out@ =~= data0.subrange(pos0, self.pos()));
            }
        }
        proof {
            assert(self.events() =~= ev0 + self.events().skip(ev0.len() as int));
        }
        Ok(out)
    }

    /// The log of reports so far: one entry per successful read, each the
    /// byte count that read returned.
    pub fn callback_log(&self) -> (r: &Vec<usize>)
        ensures
            r@ == self.events(),
    {
        &self.recorded
    }

    /// Consumes the reader, handing the log of reports out.
    pub fn into_log(self) -> (r: Vec<usize>)
        ensures
            r@ == self.events(),
    {
        self.recorded
    }
}

} // verus!
