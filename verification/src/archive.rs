//! The archive reader and the unpack pipeline.
//!
//! An [`Archive`] is built over a byte source: the source is wrapped with a
//! progress reader and read to its end, and the entry directory is parsed out
//! of the bytes. Entries are exposed by index, in archive order. Unpacking
//! computes the ordered plan of filesystem operations for a destination root;
//! app code, which owns the filesystem, performs them in order.

use vstd::prelude::*;
use crate::ArchiveError;
use crate::source::Source;
use crate::progress::{ProgressReader, sum_events, chunk_log};
use crate::zipdata::{
    zip_parses,
    zip_num_entries,
    zip_entry_name_of,
    zip_entry_extracts,
    zip_entry_data_of,
    zip_count,
    zip_entry_name,
    zip_entry_bytes,
};
use crate::paths::{
    to_verbatim,
    spec_to_verbatim,
    is_dir_name,
    spec_is_dir_name,
    translate_separators,
    spec_translate,
    join,
    parent_of,
};
use crate::fsmodel::{
    FsOp,
    plan_model,
    spec_unpack_plan,
    entry_ops,
    dirs_precede_files,
    lemma_unpack_plan_dirs_precede,
};

verus! {

/// An archive whose entry directory has been parsed from a byte source.
pub struct Archive {
    data: Vec<u8>,
    names: Vec<Vec<u8>>,
    log: Vec<usize>,
}

impl Archive {
    #[verifier::type_invariant]
    spec fn inv(self) -> bool {
        &&& zip_parses(self.data@)
        &&& self.names@.len() == zip_num_entries(self.data@)
        &&& forall|i: int|
            0 <= i < self.names@.len() ==> (#[trigger] self.names@[i])@ == zip_entry_name_of(
                self.data@,
                i,
            )
    }

    /// The bytes of the source the archive was read from.
    pub closed spec fn source_bytes(&self) -> Seq<u8> {
        self.data@
    }

    /// The stored names of the entries, in archive order.
    pub closed spec fn entries(&self) -> Seq<Seq<u8>> {
        Seq::new(self.names@.len(), |i: int| self.names@[i]@)
    }

    /// The progress reports recorded while the source was read.
    pub closed spec fn progress(&self) -> Seq<usize> {
        self.log@
    }

    /// Parses the entry directory out of fully read archive bytes: this
    /// succeeds exactly when the bytes parse as a zip archive, and fails with
    /// `ArchiveFormatError` otherwise. An archive built this way has an empty
    /// progress log; [`Archive::new`] reads through a progress reader first
    /// and fills it.
    pub fn from_bytes(bytes: Vec<u8>) -> (r: Result<Archive, ArchiveError>)
        ensures
            r is Ok <==> zip_parses(bytes@),
            r matches Err(e) ==> e == ArchiveError::ArchiveFormatError,
            r matches Ok(a) ==> {
                &&& a.source_bytes() == bytes@
                &&& a.entries().len() == zip_num_entries(bytes@)
                &&& (forall|i: int|
                    0 <= i < a.entries().len() ==> a.entries()[i] == zip_entry_name_of(bytes@, i))
                &&& a.progress() == Seq::<usize>::empty()
            },
    {
        let count = match zip_count(&bytes) {
            Ok(n) => n,
            Err(e) => {
                return Err(e);
            },
        };
        let mut names: Vec<Vec<u8>> = Vec::new();
        let mut i: usize = 0;
        while i < count
            invariant
                zip_parses(bytes@),
                count as nat == zip_num_entries(bytes@),
                i <= count,
                names@.len() == i,
                forall|j: int|
                    0 <= j < i ==> (#[trigger] names@[j])@ == zip_entry_name_of(bytes@, j),
            decreases count - i,
        {
            let nm = match zip_entry_name(&bytes, i) {
                Ok(nm) => nm,
                Err(e) => {
                    return Err(e);
                },
            };
            names.push(nm);
            i = i + 1;
        }
        let ghost data0 = bytes@;
        let a = Archive { data: bytes, names, log: Vec::new() };
        proof {
            assert forall|k: int| 0 <= k < a.entries().len() implies a.entries()[k]
                == zip_entry_name_of(data0, k) by {
                assert(a.entries()[k] == a.names@[k]@);
            }
        }
        Ok(a)
    }

    /// Builds an archive over a data source, wrapped with a progress reader:
    /// the source is read to its end — one report per successful read, with
    /// exactly the count that read returned — and the entry directory is
    /// parsed from the bytes. Bytes that do not parse as an archive are
    /// rejected with `ArchiveFormatError`; a failure of the source itself
    /// propagates as its own error.
    ///
    /// Law: the log is exactly the per-read counts of one pass over the
    /// source from the start — full chunks, the short tail, then the empty
    /// read that signals the end — so across the full read of an N-byte
    /// source the reports sum to exactly N, the compressed size.
    pub fn new<S: Source>(source: S) -> (r: Result<Archive, ArchiveError>)
        ensures
            match r {
                Ok(a) => {
                    &&& zip_parses(source.data())
                    &&& a.source_bytes() == source.data()
                    &&& a.entries().len() == zip_num_entries(source.data())
                    &&& forall|i: int|
                        0 <= i < a.entries().len() ==> a.entries()[i] == zip_entry_name_of(
                            source.data(),
                            i,
                        )
                    &&& a.progress() == chunk_log(source.data().len() as nat)
                    &&& sum_events(a.progress()) == source.data().len()
                },
                Err(_) => true,
            },
            !zip_parses(source.data()) ==> r is Err,
    {
        let ghost data0 = source.data();
        let mut reader = ProgressReader::new(source);
        match reader.seek(0) {
            Ok(_) => {},
            Err(e) => {
                return Err(e);
            },
        }
        let bytes = match reader.read_to_end() {
            Ok(b) => b,
            Err(e) => {
                return Err(e);
            },
        };
        proof {
            assert(bytes@ =~= data0);
        }
        let log = reader.into_log();
        let mut a = match Self::from_bytes(bytes) {
            Ok(a) => a,
            Err(e) => {
                return Err(e);
            },
        };
        a.log = log;
        Ok(a)
    }

    /// The number of entries the archive's directory lists.
    pub fn entry_count(&self) -> (r: usize)
        ensures
            r == self.entries().len(),
    {
        self.names.len()
    }

    /// The stored name of entry `i`, in the archive's native convention.
    pub fn entry_name(&self, i: usize) -> (r: &Vec<u8>)
        requires
            i < self.entries().len(),
        ensures
            r@ == self.entries()[i as int],
    {
        &self.names[i]
    }

    /// The decompressed contents of entry `i`; a malformed entry fails.
    pub fn entry_data(&self, i: usize) -> (r: Result<Vec<u8>, ArchiveError>)
        requires
            i < self.entries().len(),
        ensures
            r is Ok <==> zip_entry_extracts(self.source_bytes(), i as int),
            r matches Ok(b) ==> b@ == zip_entry_data_of(self.source_bytes(), i as int),
            r matches Err(e) ==> e == ArchiveError::ArchiveFormatError,
    {
        proof {
            use_type_invariant(self);
        }
        zip_entry_bytes(&self.data, i)
    }

    /// The log of progress reports recorded while the source was read: one
    /// count per successful read, in order.
    pub fn progress_log(&self) -> (r: &Vec<usize>)
        ensures
            r@ == self.progress(),
    {
        &self.log
    }

    /// Computes the plan that unpacks the archive under a destination root.
    ///
    /// The root is first resolved to verbatim form, exempt from the host's
    /// legacy path-length limit; verbatim paths are not normalized by the
    /// host, so every separator is placed explicitly. Then, for each entry in
    /// archive order: a directory entry (trailing `/` in its stored name,
    /// which is dropped) becomes one recursive directory creation; any other
    /// entry becomes a recursive creation of its parent directory followed by
    /// one write of its decompressed contents — so every file's directory is
    /// in place before the file, whatever order the archive lists entries in.
    ///
    /// App code performs the returned operations in order; a filesystem
    /// failure aborts the run at that point, leaving earlier operations'
    /// effects in place.
    pub fn unpack(self, dest: &Vec<u8>) -> (r: Result<Vec<FsOp>, ArchiveError>)
        ensures
            match r {
                Ok(plan) => {
                    &&& plan_model(plan@) == spec_unpack_plan(
                        self.entries(),
                        self.source_bytes(),
                        spec_to_verbatim(dest@),
                    )
                    &&& dirs_precede_files(plan_model(plan@))
                    &&& forall|i: int|
                        0 <= i < self.entries().len() && !spec_is_dir_name(
                            #[trigger] self.entries()[i],
                        ) ==> zip_entry_extracts(self.source_bytes(), i)
                },
                Err(e) => {
                    &&& e == ArchiveError::ArchiveFormatError
                    &&& exists|i: int|
                        0 <= i < self.entries().len() && !spec_is_dir_name(
                            #[trigger] self.entries()[i],
                        ) && !zip_entry_extracts(self.source_bytes(), i)
                },
            },
    {
        proof {
            use_type_invariant(&self);
        }
        let vdest = to_verbatim(dest);
        let mut plan: Vec<FsOp> = Vec::new();
        let n = self.names.len();
        let mut i: usize = 0;
        while i < n
            invariant
                self.inv(),
                n == self.names@.len(),
                vdest@ == spec_to_verbatim(dest@),
                i <= n,
                plan_model(plan@) == spec_unpack_plan(
                    self.entries().take(i as int),
                    self.data@,
                    vdest@,
                ),
                forall|j: int|
                    0 <= j < i && !spec_is_dir_name(#[trigger] self.entries()[j])
                        ==> zip_entry_extracts(self.data@, j),
            decreases n - i,
        {
            let name = &self.names[i];
            let ghost plan_pre = plan_model(plan@);
            let ghost ops_i = entry_ops(
                self.entries()[i as int],
                zip_entry_data_of(self.data@, i as int),
                vdest@,
            );
            if is_dir_name(name) {
                let mut sub = translate_separators(name);
                sub.pop();
                let dirpath = join(&vdest, &sub);
                plan.push(FsOp::MakeDirAll(dirpath));
                proof {
                    assert(sub@ =~= spec_translate(self.entries()[i as int]).drop_last());
                    assert(plan_model(plan@) =~= plan_pre + ops_i);
                }
            } else {
                let contents = match zip_entry_bytes(&self.data, i) {
                    Ok(b) => b,
                    Err(e) => {
                        return Err(e);
                    },
                };
                let sub = translate_separators(name);
                let full = join(&vdest, &sub);
                let par = parent_of(&full);
                plan.push(FsOp::MakeDirAll(par));
                plan.push(FsOp::WriteFile(full, contents));
                proof {
                    assert(plan_model(plan@) =~= plan_pre + ops_i);
                }
            }
            proof {
                assert(self.entries().take(i + 1).drop_last() =~= self.entries().take(i as int));
                assert(self.entries().take(i + 1).last() == self.entries()[i as int]);
            }
            i = i + 1;
        }
        proof {
            assert(self.entries().take(n as int) =~= self.entries());
            lemma_unpack_plan_dirs_precede(self.entries(), self.data@, spec_to_verbatim(dest@));
        }
        Ok(plan)
    }
}

} // verus!
