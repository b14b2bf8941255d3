//! Trusted access to the zip format library.
//!
//! The archive's entry directory and each entry's decompressed contents are
//! functions of the archive bytes alone; they are named here, and the
//! wrappers promise no more of the format library than that its results are
//! those named values.

use vstd::prelude::*;
use crate::ArchiveError;

verus! {

/// Whether the bytes parse as a valid zip archive (the format-defined trailer
/// and the entry directory it points to).
pub uninterp spec fn zip_parses(data: Seq<u8>) -> bool;

/// The number of entries the reader exposes: the archive's directory with
/// duplicate stored names collapsed, a later record replacing an earlier one
/// of the same name.
pub uninterp spec fn zip_num_entries(data: Seq<u8>) -> nat;

/// The stored name of entry `i`, in the archive's native convention.
pub uninterp spec fn zip_entry_name_of(data: Seq<u8>, i: int) -> Seq<u8>;

/// Whether entry `i`'s contents decompress without error.
pub uninterp spec fn zip_entry_extracts(data: Seq<u8>, i: int) -> bool;

/// The decompressed contents of entry `i`.
pub uninterp spec fn zip_entry_data_of(data: Seq<u8>, i: int) -> Seq<u8>;

/// Relies on zip::ZipArchive::new and ZipArchive::len: parsing the entry
/// directory out of a byte source is deterministic in the bytes, and reports
/// how many entries the archive holds.
#[verifier::external_body]
pub(crate) fn zip_count(data: &Vec<u8>) -> (r: Result<usize, ArchiveError>)
    ensures
        r is Ok <==> zip_parses(data@),
        r matches Ok(n) ==> n as nat == zip_num_entries(data@),
        r matches Err(e) ==> e == ArchiveError::ArchiveFormatError,
{
    match zip::ZipArchive::new(std::io::Cursor::new(data.as_slice())) {
        Ok(archive) => Ok(archive.len()),
        Err(_) => Err(ArchiveError::ArchiveFormatError),
    }
}

/// Relies on zip::ZipArchive::name_for_index: the decoded stored name of
/// entry `i`, a function of the archive bytes and the index alone, present
/// for every index below the entry count.
#[verifier::external_body]
pub(crate) fn zip_entry_name(data: &Vec<u8>, i: usize) -> (r: Result<Vec<u8>, ArchiveError>)
    requires
        zip_parses(data@),
        i < zip_num_entries(data@),
    ensures
        r is Ok,
        r matches Ok(nm) ==> nm@ == zip_entry_name_of(data@, i as int),
{
    let archive = match zip::ZipArchive::new(std::io::Cursor::new(data.as_slice())) {
        Ok(a) => a,
        Err(_) => return Err(ArchiveError::ArchiveFormatError),
    };
    match archive.name_for_index(i) {
        Some(name) => Ok(name.as_bytes().to_vec()),
        None => Err(ArchiveError::ArchiveFormatError),
    }
}

/// Relies on zip::ZipArchive::by_index and std::io::Read::read_to_end on the
/// entry it returns: whether entry `i` decompresses, and to which bytes, is
/// deterministic in the archive bytes and the index; a malformed entry fails.
#[verifier::external_body]
pub(crate) fn zip_entry_bytes(data: &Vec<u8>, i: usize) -> (r: Result<Vec<u8>, ArchiveError>)
    requires
        zip_parses(data@),
        i < zip_num_entries(data@),
    ensures
        r is Ok <==> zip_entry_extracts(data@, i as int),
        r matches Ok(b) ==> b@ == zip_entry_data_of(data@, i as int),
        r matches Err(e) ==> e == ArchiveError::ArchiveFormatError,
{
    let mut archive = match zip::ZipArchive::new(std::io::Cursor::new(data.as_slice())) {
        Ok(a) => a,
        Err(_) => return Err(ArchiveError::ArchiveFormatError),
    };
    let mut entry = match archive.by_index(i) {
        Ok(f) => f,
        Err(_) => return Err(ArchiveError::ArchiveFormatError),
    };
    let mut out = Vec::new();
    match std::io::Read::read_to_end(&mut entry, &mut out) {
        Ok(_) => Ok(out),
        Err(_) => Err(ArchiveError::ArchiveFormatError),
    }
}

} // verus!
