use std::collections::{HashMap, HashSet};
use std::io::Write;

use node_archive::ArchiveError;
use node_archive::archive::Archive;
use node_archive::fsmodel::FsOp;
use node_archive::source::Cached;

fn build_zip(entries: &[(&str, Option<&[u8]>)]) -> Vec<u8> {
    let mut w = zip::ZipWriter::new(std::io::Cursor::new(Vec::new()));
    let opts = zip::write::SimpleFileOptions::default().compression_method(
        zip::CompressionMethod::Deflated,
    );
    for (name, data) in entries {
        match data {
            None => {
                w.add_directory(*name, opts).unwrap();
            },
            Some(d) => {
                w.start_file(*name, opts).unwrap();
                w.write_all(d).unwrap();
            },
        }
    }
    w.finish().unwrap().into_inner()
}

fn example_zip() -> (Vec<u8>, Vec<u8>, Vec<u8>) {
    let exe = vec![7u8; 1024];
    let readme = b"0123456789".to_vec();
    let bytes = build_zip(
        &[("bin/", None), ("bin/node.exe", Some(&exe)), ("README", Some(&readme))],
    );
    (bytes, exe, readme)
}

/// Runs a plan against a simulated destination tree, as app code runs it
/// against the real one.
fn replay(plan: &[FsOp], dirs: &mut HashSet<Vec<u8>>, files: &mut HashMap<Vec<u8>, Vec<u8>>) {
    for op in plan {
        match op {
            FsOp::MakeDirAll(p) => {
                dirs.insert(p.clone());
                for (k, b) in p.iter().enumerate() {
                    if *b == b'\\' {
                        dirs.insert(p[..k].to_vec());
                    }
                }
            },
            FsOp::WriteFile(p, d) => {
                files.insert(p.clone(), d.clone());
            },
        }
    }
}

#[test]
fn archive_entry_names_in_order() {
    let (bytes, _, _) = example_zip();
    let a = Archive::new(Cached::load(bytes)).unwrap();
    assert_eq!(a.entry_count(), 3);
    assert_eq!(a.entry_name(0), &b"bin/".to_vec());
    assert_eq!(a.entry_name(1), &b"bin/node.exe".to_vec());
    assert_eq!(a.entry_name(2), &b"README".to_vec());
}

#[test]
fn archive_progress_sums_to_compressed_size() {
    let (bytes, _, _) = example_zip();
    let n = bytes.len();
    let a = Archive::new(Cached::load(bytes)).unwrap();
    let total: usize = a.progress_log().iter().sum();
    assert_eq!(total, n);
    // The test archives are smaller than one read chunk: one full read, then
    // the empty read that signals the end.
    assert_eq!(a.progress_log(), &vec![n, 0]);
}

#[test]
fn archive_rejects_garbage() {
    let r = Archive::new(Cached::load(b"this is not an archive".to_vec()));
    assert!(matches!(r, Err(ArchiveError::ArchiveFormatError)));
}

#[test]
fn archive_from_bytes_parses_and_rejects() {
    let (bytes, _, readme) = example_zip();
    let a = Archive::from_bytes(bytes).unwrap();
    assert_eq!(a.entry_count(), 3);
    assert_eq!(a.entry_data(2).unwrap(), readme);
    assert!(a.progress_log().is_empty());
    let bad = Archive::from_bytes(b"garbage".to_vec());
    assert!(matches!(bad, Err(ArchiveError::ArchiveFormatError)));
}

#[test]
fn entry_data_is_decompressed_content() {
    let body = b"aaaaaaaaaaaaaaaaaaaaaaaaaaaaaaaaaaaaaaaaaaaaaaaaaaaaaaaa".to_vec();
    let bytes = build_zip(&[("data.txt", Some(&body))]);
    // Deflate makes the stored form smaller than the contents, so the
    // decompressed bytes cannot be a slice of the archive handed back.
    assert!(bytes.len() < body.len() + 200);
    let a = Archive::new(Cached::load(bytes)).unwrap();
    assert_eq!(a.entry_data(0).unwrap(), body);
}

#[test]
fn unpack_plan_example() {
    let (bytes, exe, readme) = example_zip();
    let a = Archive::new(Cached::load(bytes)).unwrap();
    let plan = a.unpack(&b"C:\\out".to_vec()).unwrap();
    let expected = vec![
        FsOp::MakeDirAll(b"\\\\?\\C:\\out\\bin".to_vec()),
        FsOp::MakeDirAll(b"\\\\?\\C:\\out\\bin".to_vec()),
        FsOp::WriteFile(b"\\\\?\\C:\\out\\bin\\node.exe".to_vec(), exe),
        FsOp::MakeDirAll(b"\\\\?\\C:\\out".to_vec()),
        FsOp::WriteFile(b"\\\\?\\C:\\out\\README".to_vec(), readme),
    ];
    assert_eq!(plan, expected);
}

#[test]
fn unpack_example_tree() {
    let (bytes, exe, readme) = example_zip();
    let a = Archive::new(Cached::load(bytes)).unwrap();
    let plan = a.unpack(&b"C:\\out".to_vec()).unwrap();
    let mut dirs: HashSet<Vec<u8>> = HashSet::new();
    let mut files: HashMap<Vec<u8>, Vec<u8>> = HashMap::new();
    replay(&plan, &mut dirs, &mut files);
    assert!(dirs.contains(&b"\\\\?\\C:\\out\\bin".to_vec()));
    assert_eq!(files.len(), 2);
    assert_eq!(files.get(&b"\\\\?\\C:\\out\\bin\\node.exe".to_vec()), Some(&exe));
    assert_eq!(files.get(&b"\\\\?\\C:\\out\\README".to_vec()), Some(&readme));
}

#[test]
fn unpack_dir_listed_after_contained_file() {
    let body = b"payload".to_vec();
    let bytes = build_zip(&[("bin/node.exe", Some(&body)), ("bin/", None)]);
    let a = Archive::new(Cached::load(bytes)).unwrap();
    let plan = a.unpack(&b"D:\\x".to_vec()).unwrap();
    // The file's parent directory is created just before the file, although
    // the archive lists the directory entry only afterward.
    let expected = vec![
        FsOp::MakeDirAll(b"\\\\?\\D:\\x\\bin".to_vec()),
        FsOp::WriteFile(b"\\\\?\\D:\\x\\bin\\node.exe".to_vec(), body),
        FsOp::MakeDirAll(b"\\\\?\\D:\\x\\bin".to_vec()),
    ];
    assert_eq!(plan, expected);
}

#[test]
fn unpack_twice_yields_identical_content() {
    let (bytes, _, _) = example_zip();
    let a1 = Archive::new(Cached::load(bytes.clone())).unwrap();
    let a2 = Archive::new(Cached::load(bytes)).unwrap();
    let dest = b"C:\\pre".to_vec();
    let plan1 = a1.unpack(&dest).unwrap();
    let plan2 = a2.unpack(&dest).unwrap();
    assert_eq!(plan1, plan2);
    // A pre-populated destination: an unrelated file and directory survive.
    let mut dirs: HashSet<Vec<u8>> = HashSet::new();
    let mut files: HashMap<Vec<u8>, Vec<u8>> = HashMap::new();
    dirs.insert(b"\\\\?\\C:\\pre".to_vec());
    files.insert(b"\\\\?\\C:\\pre\\keep.txt".to_vec(), b"kept".to_vec());
    replay(&plan1, &mut dirs, &mut files);
    let dirs_once = dirs.clone();
    let files_once = files.clone();
    replay(&plan2, &mut dirs, &mut files);
    assert_eq!(dirs, dirs_once);
    assert_eq!(files, files_once);
    assert_eq!(files.get(&b"\\\\?\\C:\\pre\\keep.txt".to_vec()), Some(&b"kept".to_vec()));
}

#[test]
fn remote_source_feeds_archive() {
    let (bytes, _, readme) = example_zip();
    let remote = node_archive::source::Remote::fetch(200, bytes).unwrap();
    let a = Archive::new(remote).unwrap();
    assert_eq!(a.entry_count(), 3);
    assert_eq!(a.entry_data(2).unwrap(), readme);
}

#[test]
fn corrupt_entry_fails_unpack() {
    let body: Vec<u8> = (0u8..=255).cycle().take(4096).collect();
    let mut bytes = build_zip(&[("blob.bin", Some(&body))]);
    // Flip bytes inside the compressed payload, past the local header and the
    // 8-byte name; the directory still parses, the entry no longer extracts.
    for k in 60..70 {
        bytes[k] ^= 0xFF;
    }
    let a = Archive::new(Cached::load(bytes)).unwrap();
    assert_eq!(a.entry_count(), 1);
    assert!(matches!(a.entry_data(0), Err(ArchiveError::ArchiveFormatError)));
    let a2 = Archive::new(Cached::load({
        let body2: Vec<u8> = (0u8..=255).cycle().take(4096).collect();
        let mut b = build_zip(&[("blob.bin", Some(&body2))]);
        for k in 60..70 {
            b[k] ^= 0xFF;
        }
        b
    }))
    .unwrap();
    assert!(matches!(a2.unpack(&b"C:\\out".to_vec()), Err(ArchiveError::ArchiveFormatError)));
}

#[test]
fn unpack_empty_archive() {
    let bytes = build_zip(&[]);
    let a = Archive::new(Cached::load(bytes)).unwrap();
    assert_eq!(a.entry_count(), 0);
    let plan = a.unpack(&b"C:\\out".to_vec()).unwrap();
    assert!(plan.is_empty());
}
