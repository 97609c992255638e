//! Plain data carriers the service's edges exchange with the core: the
//! request bodies, the authenticated claim, and the user record consumed
//! read-only here.
use vstd::prelude::*;

verus! {

/// A submission request: the URL to resolve and download.
pub struct DownloadRequest {
    pub download_url: String,
}

/// A user record, consumed read-only: the orchestrator needs the identity
/// and the name (the latter keys the storage partition).
pub struct User {
    pub id: u64,
    pub name: String,
    pub password: String,
}

/// An account-creation request.
pub struct CreateUserRequest {
    pub name: String,
    pub password: String,
}

/// What a verified bearer token asserts: the authenticated user's identity.
#[derive(Clone, Copy, PartialEq, Eq, Structural, Debug)]
pub struct TokenClaims {
    pub id: u64,
}

} // verus!
