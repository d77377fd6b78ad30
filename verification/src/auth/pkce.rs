//! PKCE (RFC 7636) for the browser login: a random code verifier, its
//! `S256` challenge and a random `state`.
//!
//! The verifier is 32 random bytes and the state 16, each written in
//! URL-safe base64 without padding; the challenge is the URL-safe base64,
//! without padding, of the SHA-256 digest of the verifier's text.
use base64::Engine;
use rand::Rng;
use vstd::prelude::*;

use crate::package_resolver::{sha256_bytes, sha256_digest};

verus! {

/// The secrets of one authorization request.
#[derive(Debug, Clone)]
pub struct PkceSession {
    pub code_verifier: String,
    pub code_challenge: String,
    pub state: String,
}

/// What `base64::engine::general_purpose::URL_SAFE_NO_PAD.encode` returns
/// for `bytes`.
pub uninterp spec fn base64_url(bytes: Seq<u8>) -> Seq<char>;

/// `bytes` in URL-safe base64 without padding, as
/// `URL_SAFE_NO_PAD.encode` writes them; the contract names the result.
/// The bound on the length keeps the encoder's computation of the output
/// size from overflowing a `usize`, where it would panic.
#[verifier::external_body]
pub(crate) fn base64_url_encode(bytes: &[u8]) -> (r: String)
    requires
        bytes@.len() <= 0x3fff_ffff,
    ensures
        r@ == base64_url(bytes@),
{
    base64::engine::general_purpose::URL_SAFE_NO_PAD.encode(bytes)
}

/// `n` bytes from `rand::thread_rng()`, filled by `Rng::fill`. Only the
/// length is stated: the bytes are random. (The generator panics only when
/// the operating system gives it no entropy.)
#[verifier::external_body]
fn random_bytes(n: usize) -> (r: Vec<u8>)
    ensures
        r@.len() == n,
{
    let mut bytes = vec![0u8; n];
    rand::thread_rng().fill(&mut bytes[..]);
    bytes
}

/// The session made from the random verifier and state bytes: verifier,
/// challenge and state, as text.
pub open spec fn pkce_spec(verifier_bytes: Seq<u8>, state_bytes: Seq<u8>) -> (
    Seq<char>,
    Seq<char>,
    Seq<char>,
) {
    let verifier = base64_url(verifier_bytes);
    (
        verifier,
        base64_url(sha256_digest(vstd::utf8::encode_utf8(verifier))),
        base64_url(state_bytes),
    )
}

/// A session as text: verifier, challenge and state.
pub open spec fn session_view(s: PkceSession) -> (Seq<char>, Seq<char>, Seq<char>) {
    (s.code_verifier@, s.code_challenge@, s.state@)
}

/// The session made from given verifier and state bytes (each short enough
/// for its encoded length to fit in a `usize`).
pub fn pkce_session_from(verifier_bytes: &[u8], state_bytes: &[u8]) -> (r: PkceSession)
    requires
        verifier_bytes@.len() <= 0x3fff_ffff,
        state_bytes@.len() <= 0x3fff_ffff,
    ensures
        session_view(r) == pkce_spec(verifier_bytes@, state_bytes@),
{
    let code_verifier = base64_url_encode(verifier_bytes);
    let digest = sha256_bytes(code_verifier.as_str().as_bytes());
    let code_challenge = base64_url_encode(digest.as_slice());
    let state = base64_url_encode(state_bytes);
    PkceSession { code_verifier, code_challenge, state }
}

/// A fresh session: a verifier from 32 random bytes, its challenge, and a
/// state from 16 random bytes.
pub fn generate_pkce() -> (r: PkceSession)
    ensures
        exists|v: Seq<u8>, s: Seq<u8>|
            v.len() == 32 && s.len() == 16 && session_view(r) == #[trigger] pkce_spec(v, s),
{
    let verifier_bytes = random_bytes(32);
    let state_bytes = random_bytes(16);
    let r = pkce_session_from(verifier_bytes.as_slice(), state_bytes.as_slice());
    assert(session_view(r) == pkce_spec(verifier_bytes@, state_bytes@));
    r
}

} // verus!
