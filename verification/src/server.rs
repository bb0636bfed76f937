//! The key that scopes the backend's routes for the frontend, and who may
//! load the frontend's page.

use base64::prelude::{Engine, BASE64_STANDARD};
use rand::RngCore;
use vstd::prelude::*;

use crate::text::{replace_first, replace_first_spec};

verus! {

/// A random u64 from the thread's generator.
#[verifier::external_body]
fn random_u64() -> u64 {
    rand::thread_rng().next_u64()
}

/// The web scope behind which the backend is served, also sent to the
/// frontend as its key.
#[derive(Debug, Clone, Copy, PartialEq, Eq, Structural)]
pub struct FrontendKey(pub u64);

/// What the native wrapper learns of a started server: its port and the
/// frontend's key.
#[derive(Debug, Clone, Copy, PartialEq, Eq, Structural)]
pub struct ServerConfig {
    pub port: u16,
    pub frontend_key: FrontendKey,
}

/// The key of local test servers.
pub const INSECURE_KEY: u64 = 123;

impl FrontendKey {
    /// A key seeded with entropy.
    pub fn new() -> (k: FrontendKey) {
        FrontendKey(random_u64())
    }

    /// A small known key for local testing.
    pub fn new_insecure() -> (k: FrontendKey)
        ensures
            k.0 == INSECURE_KEY,
    {
        FrontendKey(INSECURE_KEY)
    }

    /// The key's value.
    pub fn expose(&self) -> (v: u64)
        ensures
            v == self.0,
    {
        self.0
    }
}

/// 32 random bytes from the thread's generator (`RngCore::fill_bytes`).
#[verifier::external_body]
fn random_bytes_32() -> (bytes: Vec<u8>)
    ensures
        bytes.len() == 32,
{
    let mut buf = [0u8; 32];
    rand::thread_rng().fill_bytes(&mut buf);
    buf.to_vec()
}

/// What base64's standard engine (standard alphabet, with padding)
/// encodes `bytes` as.
pub uninterp spec fn base64_standard(bytes: Seq<u8>) -> Seq<char>;

/// `BASE64_STANDARD.encode(bytes)`: the encoding, four characters for
/// each started group of three bytes. (It panics when that length does
/// not fit in usize.)
#[verifier::external_body]
fn base64_encode(bytes: &Vec<u8>) -> (encoded: String)
    requires
        (bytes.len() + 2) / 3 * 4 <= usize::MAX,
    ensures
        encoded@ == base64_standard(bytes@),
        encoded@.len() == (bytes.len() + 2) / 3 * 4,
{
    BASE64_STANDARD.encode(bytes)
}

/// A fresh nonce for an inline script: 256 random bits in base64.
pub fn new_nonce() -> (nonce: String)
    ensures
        exists|bytes: Seq<u8>| bytes.len() == 32 && nonce@ == base64_standard(bytes),
        nonce@.len() == 44,
{
    let bytes = random_bytes_32();
    base64_encode(&bytes)
}

/// Placeholder of the page's inline-script nonces.
pub const NONCE_PLACEHOLDER: &'static str = "RANDOM_NONCE";

/// Whether the frontend's page may be served: always before the frontend
/// has logged in; afterwards only to the session that did, by its valid
/// identity cookie.
pub fn index_access(frontend_logged_in: bool, identity_valid: bool) -> (allowed: bool)
    ensures
        allowed == (!frontend_logged_in || identity_valid),
{
    !frontend_logged_in || identity_valid
}

/// The page with its two inline-script nonces filled in: the first
/// placeholder gets `first`, the next one `second`.
pub fn page_with_nonces(page: &str, first: &str, second: &str) -> (html: String)
    ensures
        html@ == replace_first_spec(
            replace_first_spec(page@, NONCE_PLACEHOLDER@, first@),
            NONCE_PLACEHOLDER@,
            second@,
        ),
{
    proof {
        reveal_strlit("RANDOM_NONCE");
    }
    let once = replace_first(page, NONCE_PLACEHOLDER, first);
    replace_first(once.as_str(), NONCE_PLACEHOLDER, second)
}

} // verus!
