use file_downloader::wetransfer::{
    direct_link_from_response, needs_redirect, negotiation_endpoint, parse_transfer_url,
    prepare_negotiation, request_body, rewrite_canonical, suggested_file_name, TransferParams,
};
use file_downloader::DownloadError;

#[test]
fn parse_two_segments_no_recipient() {
    let p = parse_transfer_url("https://wetransfer.com/downloads/abc123/def456xyz").unwrap();
    assert_eq!(p.transfer_id, "abc123");
    assert!(p.recipient_id.is_none());
    assert_eq!(p.security_hash, "def456xyz");
}

#[test]
fn parse_three_segments_with_recipient() {
    let p =
        parse_transfer_url("https://wetransfer.com/downloads/abc123/recip9/def456xyz").unwrap();
    assert_eq!(p.transfer_id, "abc123");
    assert_eq!(p.recipient_id.as_deref(), Some("recip9"));
    assert_eq!(p.security_hash, "def456xyz");
}

#[test]
fn parse_strips_query_from_last_segment_only() {
    let p = parse_transfer_url("https://wetransfer.com/downloads/abc123/def456xyz?signature=zzz")
        .unwrap();
    assert_eq!(p.security_hash, "def456xyz");
    let p3 = parse_transfer_url(
        "https://wetransfer.com/downloads/abc123/recip9/def456xyz?signature=zzz",
    )
    .unwrap();
    assert_eq!(p3.recipient_id.as_deref(), Some("recip9"));
    assert_eq!(p3.security_hash, "def456xyz");
}

#[test]
fn parse_rejects_one_segment() {
    let r = parse_transfer_url("https://wetransfer.com/downloads/abc123");
    assert!(matches!(r, Err(DownloadError::InvalidUrl)));
}

#[test]
fn parse_rejects_four_segments() {
    let r = parse_transfer_url("https://wetransfer.com/downloads/a/b/c/d");
    assert!(matches!(r, Err(DownloadError::InvalidUrl)));
}

#[test]
fn parse_rejects_bare_host() {
    assert!(matches!(
        parse_transfer_url("https://wetransfer.com/"),
        Err(DownloadError::InvalidUrl)
    ));
    assert!(matches!(parse_transfer_url(""), Err(DownloadError::InvalidUrl)));
}

#[test]
fn short_link_detection_and_rewrite() {
    assert!(needs_redirect("https://we.tl/t/abc"));
    assert!(!needs_redirect("https://wetransfer.com/downloads/a/b"));
    assert_eq!(
        rewrite_canonical("/downloads/abc123/def456xyz"),
        "https://wetransfer.com/downloads/abc123/def456xyz"
    );
}

#[test]
fn endpoint_for_transfer() {
    assert_eq!(
        negotiation_endpoint("abc123"),
        "https://wetransfer.com/api/v4/transfers/abc123/download"
    );
}

#[test]
fn body_without_recipient_omits_the_field() {
    let p = TransferParams {
        transfer_id: "abc123".to_owned(),
        recipient_id: None,
        security_hash: "def456xyz".to_owned(),
    };
    assert_eq!(
        request_body(&p),
        "{\"security_hash\":\"def456xyz\",\"intent\":\"entire_transfer\"}"
    );
}

#[test]
fn body_with_recipient_carries_the_field() {
    let p = TransferParams {
        transfer_id: "abc123".to_owned(),
        recipient_id: Some("recip9".to_owned()),
        security_hash: "def456xyz".to_owned(),
    };
    assert_eq!(
        request_body(&p),
        "{\"recipient_id\":\"recip9\",\"security_hash\":\"def456xyz\",\"intent\":\"entire_transfer\"}"
    );
}

#[test]
fn body_is_valid_json_and_round_trips() {
    let p = TransferParams {
        transfer_id: "abc123".to_owned(),
        recipient_id: Some("re\"cip\\9".to_owned()),
        security_hash: "de\tf".to_owned(),
    };
    let body = request_body(&p);
    let v: serde_json::Value = serde_json::from_str(&body).unwrap();
    assert_eq!(v.get("recipient_id").unwrap().as_str(), Some("re\"cip\\9"));
    assert_eq!(v.get("security_hash").unwrap().as_str(), Some("de\tf"));
    assert_eq!(v.get("intent").unwrap().as_str(), Some("entire_transfer"));
}

#[test]
fn prepare_negotiation_builds_post() {
    let req =
        prepare_negotiation("https://wetransfer.com/downloads/abc123/def456xyz?signature=zzz")
            .unwrap();
    assert_eq!(req.endpoint, "https://wetransfer.com/api/v4/transfers/abc123/download");
    assert_eq!(
        req.body,
        "{\"security_hash\":\"def456xyz\",\"intent\":\"entire_transfer\"}"
    );
}

#[test]
fn prepare_negotiation_rejects_unparsable() {
    assert!(matches!(
        prepare_negotiation("https://wetransfer.com/downloads"),
        Err(DownloadError::InvalidUrl)
    ));
}

#[test]
fn direct_link_read_from_response() {
    let r = direct_link_from_response("{\"direct_link\":\"https://dl.example/f.bin\"}");
    assert_eq!(r.unwrap(), "https://dl.example/f.bin");
}

#[test]
fn direct_link_missing_or_malformed_fails_protocol() {
    assert!(matches!(
        direct_link_from_response("{\"other\":1}"),
        Err(DownloadError::Protocol)
    ));
    assert!(matches!(
        direct_link_from_response("{\"direct_link\":17}"),
        Err(DownloadError::Protocol)
    ));
    assert!(matches!(
        direct_link_from_response("not json at all"),
        Err(DownloadError::Protocol)
    ));
    assert!(matches!(direct_link_from_response(""), Err(DownloadError::Protocol)));
}

#[test]
fn suggested_name_is_last_segment_space_decoded() {
    assert_eq!(suggested_file_name("/files/My%20Report.pdf"), "My Report.pdf");
    assert_eq!(suggested_file_name("/a/b/archive.tar.gz"), "archive.tar.gz");
    assert_eq!(suggested_file_name("plain.bin"), "plain.bin");
    assert_eq!(suggested_file_name("/trailing/"), "");
}
