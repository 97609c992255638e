//! Verified core of a download-job service: URL classification, the
//! WeTransfer-style link-negotiation protocol, collision-safe path
//! allocation, an incremental stream copier, and the job ledger with its
//! pending-to-terminal state machine.
use vstd::prelude::*;

pub mod copier;
pub mod ledger;
pub mod models;
pub mod paths;
pub mod text;
pub mod wetransfer;

verus! {

/// Why a submission or its background pipeline failed: the URL matched no
/// known source kind, the ledger refused the insert, the negotiation or
/// extraction broke down, or storage failed.
#[derive(Clone, Copy, PartialEq, Eq, Structural, Debug)]
pub enum DownloadError {
    InvalidUrl,
    Rejected,
    Protocol,
    Io,
}

/// The classified category of an incoming URL.
#[derive(Clone, Copy, PartialEq, Eq, Structural, Debug)]
pub enum UrlType {
    WeTransfer,
    YouTube,
}

/// Holds when `s` begins with the prefix `p`.
pub open spec fn starts_with_spec(s: Seq<char>, p: Seq<char>) -> bool {
    s.len() >= p.len() && s.subrange(0, p.len() as int) == p
}

/// The classification rule: first match in the fixed, ordered list of
/// known host prefixes wins; no match means the URL is rejected.
pub open spec fn classify_spec(s: Seq<char>) -> Option<UrlType> {
    if starts_with_spec(s, "https://we.tl/"@) || starts_with_spec(s, "https://wetransfer.com/"@) {
        Some(UrlType::WeTransfer)
    } else if starts_with_spec(s, "https://youtu.be/"@)
        || starts_with_spec(s, "https://www.youtube.com/"@)
        || starts_with_spec(s, "https://youtube.com/"@) {
        Some(UrlType::YouTube)
    } else {
        None
    }
}

/// Decides which resolution protocol applies to a submitted URL, or rejects
/// it. Pure and local: no network access, never fails.
pub fn check_url(url: &str) -> (r: Option<UrlType>)
    ensures
        r == classify_spec(url@),
{
    if text::str_starts_with(url, "https://we.tl/") || text::str_starts_with(
        url,
        "https://wetransfer.com/",
    ) {
        Some(UrlType::WeTransfer)
    } else if text::str_starts_with(url, "https://youtu.be/") || text::str_starts_with(
        url,
        "https://www.youtube.com/",
    ) || text::str_starts_with(url, "https://youtube.com/") {
        Some(UrlType::YouTube)
    } else {
        None
    }
}

} // verus!
