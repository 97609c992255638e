use file_downloader::copier::{copy_chunks, CopyProgress};

#[test]
fn copy_preserves_bytes_and_reports_count() {
    let chunks: Vec<Vec<u8>> = vec![b"hello".to_vec(), b" ".to_vec(), b"world".to_vec()];
    let mut dest: Vec<u8> = Vec::new();
    let n = copy_chunks(&chunks, &mut dest);
    assert_eq!(dest, b"hello world".to_vec());
    assert_eq!(n, 11);
}

#[test]
fn copy_is_independent_of_chunk_boundaries() {
    let one: Vec<Vec<u8>> = vec![b"hello world".to_vec()];
    let many: Vec<Vec<u8>> = vec![
        b"h".to_vec(),
        b"".to_vec(),
        b"ello ".to_vec(),
        b"worl".to_vec(),
        b"d".to_vec(),
    ];
    let mut d1: Vec<u8> = Vec::new();
    let mut d2: Vec<u8> = Vec::new();
    let n1 = copy_chunks(&one, &mut d1);
    let n2 = copy_chunks(&many, &mut d2);
    assert_eq!(d1, d2);
    assert_eq!(n1, n2);
}

#[test]
fn copy_of_empty_source_is_empty() {
    let chunks: Vec<Vec<u8>> = Vec::new();
    let mut dest: Vec<u8> = Vec::new();
    let n = copy_chunks(&chunks, &mut dest);
    assert_eq!(n, 0);
    assert!(dest.is_empty());
}

#[test]
fn progress_counts_every_chunk() {
    let mut p = CopyProgress::new();
    assert_eq!(p.total(), 0);
    assert!(p.record_chunk(&[1, 2, 3]));
    assert!(p.record_chunk(&[]));
    assert!(p.record_chunk(&[4; 1021]));
    assert_eq!(p.total(), 1024);
}
