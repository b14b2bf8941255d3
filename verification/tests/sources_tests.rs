use node_archive::ArchiveError;
use node_archive::status_is_success;
use node_archive::paths::{is_dir_name, join, parent_of, to_verbatim, translate_separators};
use node_archive::progress::ProgressReader;
use node_archive::source::{Cached, Remote, Source};

#[test]
fn status_boundaries() {
    assert!(!status_is_success(199));
    assert!(status_is_success(200));
    assert!(status_is_success(299));
    assert!(!status_is_success(300));
    assert!(!status_is_success(404));
}

#[test]
fn cached_compressed_size_empty() {
    let s = Cached::load(Vec::new());
    assert_eq!(s.compressed_size(), 0);
    assert_eq!(s.uncompressed_size(), None);
}

#[test]
fn cached_compressed_size_nonzero() {
    let s = Cached::load(vec![1u8, 2, 3, 4, 5]);
    assert_eq!(s.compressed_size(), 5);
}

#[test]
fn cached_read_and_seek() {
    let mut s = Cached::load(vec![10u8, 11, 12, 13]);
    let first = s.read(3).unwrap();
    assert_eq!(first, vec![10u8, 11, 12]);
    let rest = s.read(10).unwrap();
    assert_eq!(rest, vec![13u8]);
    let end = s.read(10).unwrap();
    assert!(end.is_empty());
    let p = s.seek(1).unwrap();
    assert_eq!(p, 1);
    let again = s.read(2).unwrap();
    assert_eq!(again, vec![11u8, 12]);
}

#[test]
fn remote_fetch_http_error() {
    let r = Remote::fetch(404, b"page not found".to_vec());
    assert_eq!(r.err(), Some(ArchiveError::HttpError(404)));
    let r2 = Remote::fetch(500, Vec::new());
    assert_eq!(r2.err(), Some(ArchiveError::HttpError(500)));
}

#[test]
fn remote_fetch_success() {
    let body = vec![9u8; 42];
    let mut r = Remote::fetch(200, body.clone()).unwrap();
    assert_eq!(r.compressed_size(), 42);
    assert_eq!(r.uncompressed_size(), None);
    let all = r.read(100).unwrap();
    assert_eq!(all, body);
}

#[test]
fn progress_reports_per_read() {
    let mut r = ProgressReader::new(Cached::load(vec![1u8, 2, 3, 4]));
    let b = r.read(3).unwrap();
    assert_eq!(b.len(), 3);
    assert_eq!(r.callback_log(), &vec![3usize]);
    let b2 = r.read(10).unwrap();
    assert_eq!(b2.len(), 1);
    assert_eq!(r.callback_log(), &vec![3usize, 1]);
}

#[test]
fn progress_sum_equals_source_length() {
    let n: usize = 150000;
    let mut r = ProgressReader::new(Cached::load(vec![7u8; n]));
    let all = r.read_to_end().unwrap();
    assert_eq!(all.len(), n);
    let total: usize = r.callback_log().iter().sum();
    assert_eq!(total, n);
}

#[test]
fn progress_log_is_chunk_pattern() {
    // 150000 = 65536 + 65536 + 18928; the final empty read reports 0.
    let n: usize = 150000;
    let mut r = ProgressReader::new(Cached::load(vec![7u8; n]));
    r.read_to_end().unwrap();
    assert_eq!(r.callback_log(), &vec![65536usize, 65536, 18928, 0]);
}

#[test]
fn progress_sum_empty_source() {
    let mut r = ProgressReader::new(Cached::load(Vec::new()));
    let all = r.read_to_end().unwrap();
    assert!(all.is_empty());
    let total: usize = r.callback_log().iter().sum();
    assert_eq!(total, 0);
}

#[test]
fn progress_seek_reports_nothing() {
    let mut r = ProgressReader::new(Cached::load(vec![1u8, 2, 3]));
    r.seek(2).unwrap();
    assert!(r.callback_log().is_empty());
    let b = r.read(5).unwrap();
    assert_eq!(b, vec![3u8]);
    assert_eq!(r.into_log(), vec![1usize]);
}

#[test]
fn dir_names() {
    assert!(is_dir_name(&b"bin/".to_vec()));
    assert!(!is_dir_name(&b"bin/node.exe".to_vec()));
    assert!(!is_dir_name(&Vec::new()));
}

#[test]
fn translate_archive_separators() {
    assert_eq!(translate_separators(&b"a/b/c.txt".to_vec()), b"a\\b\\c.txt".to_vec());
    assert_eq!(translate_separators(&b"plain".to_vec()), b"plain".to_vec());
    assert_eq!(translate_separators(&Vec::new()), Vec::<u8>::new());
}

#[test]
fn join_paths() {
    assert_eq!(join(&b"C:\\out".to_vec(), &b"bin".to_vec()), b"C:\\out\\bin".to_vec());
    assert_eq!(join(&b"C:\\out\\".to_vec(), &b"bin".to_vec()), b"C:\\out\\bin".to_vec());
    assert_eq!(join(&b"C:\\out".to_vec(), &Vec::new()), b"C:\\out".to_vec());
    assert_eq!(join(&Vec::new(), &b"bin".to_vec()), b"bin".to_vec());
}

#[test]
fn parent_of_paths() {
    assert_eq!(parent_of(&b"C:\\out\\bin".to_vec()), b"C:\\out".to_vec());
    assert_eq!(parent_of(&b"README".to_vec()), Vec::<u8>::new());
    assert_eq!(parent_of(&Vec::new()), Vec::<u8>::new());
}

#[test]
fn verbatim_prefixing() {
    assert_eq!(to_verbatim(&b"C:\\out".to_vec()), b"\\\\?\\C:\\out".to_vec());
    assert_eq!(to_verbatim(&b"\\\\?\\C:\\out".to_vec()), b"\\\\?\\C:\\out".to_vec());
    assert_eq!(to_verbatim(&Vec::new()), b"\\\\?\\".to_vec());
}
