//! Byte sources for an archive.
//!
//! A source holds the archive's compressed bytes and a movable read cursor.
//! [`Cached`] is a source whose bytes were already brought to the local
//! filesystem; [`Remote`] is one whose bytes were fetched over the network
//! into a cache file first. App code performs the file and network transfers
//! and hands the completed bytes in; no partial-download state is ever
//! exposed to readers.

use vstd::prelude::*;
use crate::ArchiveError;

verus! {

/// The bytes a read returns: the window of `data` starting at `pos`, at most
/// `n` long, clamped to the end of the data. Empty exactly when the cursor is
/// at or past the end, or nothing was asked for.
pub open spec fn read_window(data: Seq<u8>, pos: int, n: int) -> Seq<u8> {
    if 0 <= pos < data.len() {
        data.subrange(pos, if pos + n <= data.len() {
            pos + n
        } else {
            data.len() as int
        })
    } else {
        Seq::empty()
    }
}

/// A data source for an archive: sequential read, absolute seek, and size
/// reporting. `data()` is the full compressed contents, `pos()` the cursor.
pub trait Source: Sized {
    /// The complete contents of the source; never changed by reads or seeks.
    spec fn data(&self) -> Seq<u8>;

    /// The current cursor position.
    spec fn pos(&self) -> int;

    /// Reads up to `n` bytes from the cursor onward; fewer may come back, and
    /// an empty result signals the end of the data. Any underlying failure
    /// propagates as an error and moves nothing.
    fn read(&mut self, n: usize) -> (r: Result<Vec<u8>, ArchiveError>)
        ensures
            final(self).data() == old(self).data(),
            match r {
                Ok(b) => b@ == read_window(old(self).data(), old(self).pos(), n as int)
                    && final(self).pos() == old(self).pos() + b@.len(),
                Err(_) => final(self).pos() == old(self).pos(),
            },
    ;

    /// Moves the cursor to an absolute offset and reports the new offset.
    fn seek(&mut self, offset: u64) -> (r: Result<u64, ArchiveError>)
        ensures
            final(self).data() == old(self).data(),
            match r {
                Ok(p) => final(self).pos() == offset as int && p == offset,
                Err(_) => final(self).pos() == old(self).pos(),
            },
    ;

    /// The size of the compressed contents.
    fn compressed_size(&self) -> (r: u64)
        ensures
            r as int == self.data().len(),
    ;

    /// The size of the uncompressed contents, where the source knows it.
    fn uncompressed_size(&self) -> (r: Option<u64>);
}

/// A data source for an archive that has been cached to the local filesystem.
/// Its size is measured once, when the bytes are loaded, and never
/// revalidated afterward.
pub struct Cached {
    compressed_size: u64,
    data: Vec<u8>,
    pos: u64,
}

impl Cached {
    #[verifier::type_invariant]
    spec fn inv(self) -> bool {
        self.compressed_size as int == self.data@.len()
    }

    /// Loads a cached archive from its bytes, measuring the compressed size.
    pub fn load(data: Vec<u8>) -> (r: Cached)
        ensures
            r.data() == data@,
            r.pos() == 0,
    {
        let compressed_size = data.len() as u64;
        Cached { compressed_size, data, pos: 0 }
    }
}

impl Source for Cached {
    closed spec fn data(&self) -> Seq<u8> {
        self.data@
    }

    closed spec fn pos(&self) -> int {
        self.pos as int
    }

    fn read(&mut self, n: usize) -> (r: Result<Vec<u8>, ArchiveError>)
        ensures
            r is Ok,
    {
        proof {
            use_type_invariant(&*self);
        }
        let len = self.data.len();
        if self.pos >= len as u64 || n == 0 {
            proof {
                assert(read_window(self.data@, self.pos as int, n as int) =~= Seq::<u8>::empty());
            }
            return Ok(Vec::new());
        }
        let start = self.pos as usize;
        let end = if n <= len - start {
            start + n
        } else {
            len
        };
        let mut out: Vec<u8> = Vec::new();
        let mut k: usize = start;
        while k < end
            invariant
                start <= k <= end <= self.data@.len(),
                out@ =~= self.data@.subrange(start as int, k as int),
            decreases end - k,
        {
            out.push(self.data[k]);
            proof {
                assert(out@ =~= self.data@.subrange(start as int, k + 1));
            }
            k = k + 1;
        }
        self.pos = end as u64;
        proof {
            assert(out@ =~= read_window(self.data@, start as int, n as int));
        }
        Ok(out)
    }

    fn seek(&mut self, offset: u64) -> (r: Result<u64, ArchiveError>)
        ensures
            r is Ok,
    {
        proof {
            use_type_invariant(&*self);
        }
        self.pos = offset;
        Ok(offset)
    }

    fn compressed_size(&self) -> (r: u64) {
        proof {
            use_type_invariant(&*self);
        }
        self.compressed_size
    }

    fn uncompressed_size(&self) -> (r: Option<u64>)
        ensures
            r is None,
    {
        None
    }
}

/// A data source for an archive fetched from a remote server. The transfer
/// itself is outside work: app code issues the request, streams the whole
/// body into a cache file, and hands the status and the completed bytes to
/// [`Remote::fetch`].
pub struct Remote {
    cached: Cached,
}

impl Remote {
    /// Finishes a fetch: a response with a non-success status fails with
    /// `HttpError` carrying that status, and no source is produced; a success
    /// yields a source over the fully transferred bytes.
    pub fn fetch(status: u16, body: Vec<u8>) -> (r: Result<Remote, ArchiveError>)
        ensures
            crate::spec_status_is_success(status) ==> (r matches Ok(rem) && rem.data() == body@
                && rem.pos() == 0),
            !crate::spec_status_is_success(status) ==> r == Err::<Remote, ArchiveError>(
                ArchiveError::HttpError(status),
            ),
    {
        if !crate::status_is_success(status) {
            return Err(ArchiveError::HttpError(status));
        }
        Ok(Remote { cached: Cached::load(body) })
    }
}

impl Source for Remote {
    closed spec fn data(&self) -> Seq<u8> {
        self.cached.data()
    }

    closed spec fn pos(&self) -> int {
        self.cached.pos()
    }

    fn read(&mut self, n: usize) -> (r: Result<Vec<u8>, ArchiveError>)
        ensures
            r is Ok,
    {
        self.cached.read(n)
    }

    fn seek(&mut self, offset: u64) -> (r: Result<u64, ArchiveError>)
        ensures
            r is Ok,
    {
        self.cached.seek(offset)
    }

    fn compressed_size(&self) -> (r: u64) {
        self.cached.compressed_size()
    }

    fn uncompressed_size(&self) -> (r: Option<u64>)
        ensures
            r is None,
    {
        None
    }
}

} // verus!
