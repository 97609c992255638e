use file_downloader::{check_url, UrlType};

#[test]
fn classify_wetransfer_canonical() {
    assert_eq!(
        check_url("https://wetransfer.com/downloads/abc123/def456xyz?signature=zzz"),
        Some(UrlType::WeTransfer)
    );
}

#[test]
fn classify_wetransfer_short_link() {
    assert_eq!(check_url("https://we.tl/t/abcDEF"), Some(UrlType::WeTransfer));
}

#[test]
fn classify_youtube_prefixes() {
    assert_eq!(check_url("https://youtu.be/dQw4w9WgXcQ"), Some(UrlType::YouTube));
    assert_eq!(
        check_url("https://www.youtube.com/watch?v=dQw4w9WgXcQ"),
        Some(UrlType::YouTube)
    );
    assert_eq!(check_url("https://youtube.com/watch?v=dQw4w9WgXcQ"), Some(UrlType::YouTube));
}

#[test]
fn classify_rejects_unknown_hosts() {
    assert_eq!(check_url("https://example.com/file.bin"), None);
    assert_eq!(check_url("http://wetransfer.com/downloads/a/b"), None);
    assert_eq!(check_url("https://wetransfer.org/downloads/a/b"), None);
    assert_eq!(check_url("ftp://we.tl/t/x"), None);
    assert_eq!(check_url(""), None);
    assert_eq!(check_url("https://we.tl"), None);
}
