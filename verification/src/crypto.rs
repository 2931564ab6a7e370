use vstd::prelude::*;
use aes_gcm::aead::{Aead, AeadCore, KeyInit, OsRng};
use aes_gcm::{Aes256Gcm, Nonce};
use base64::Engine;
use sha2::{Digest, Sha256};
use vstd::string::StringSliceAdditionalSpecFns;

verus! {

/// The most plaintext bytes AES-GCM seals in one message.
pub const MAX_SEALED_PLAINTEXT: u64 = 68719476736;

/// The length of an AES-GCM nonce, which starts every stored payload.
pub const NONCE_LEN: usize = 12;

/// The SHA-256 digest of `data`.
pub uninterp spec fn sha256_of(data: Seq<u8>) -> Seq<u8>;

/// What AES-256-GCM produces for `plaintext` under `key` and `nonce` with no
/// associated data: the ciphertext followed by the 16-byte tag.
pub uninterp spec fn aes256gcm_sealed(key: Seq<u8>, nonce: Seq<u8>, plaintext: Seq<u8>) -> Seq<u8>;

/// The padded standard-alphabet base64 text of `bytes`.
pub uninterp spec fn base64_text(bytes: Seq<u8>) -> Seq<char>;

/// The bytes that the standard base64 engine reads from `text`, or `None`
/// where it refuses the text.
pub uninterp spec fn base64_decoded(text: Seq<char>) -> Option<Seq<u8>>;

/// What AES-256-GCM opens `ciphertext` (ciphertext and tag) to under `key`
/// and `nonce` with no associated data, or `None` where authentication fails.
pub uninterp spec fn aes256gcm_opened(key: Seq<u8>, nonce: Seq<u8>, ciphertext: Seq<u8>) -> Option<Seq<u8>>;

/// The error text of a failed AES-GCM operation (`aead::Error` displayed).
pub open spec fn aead_error_text() -> Seq<char> {
    "aead::Error"@
}

/// `sha2::Sha256::digest`: the contract claims the 32-byte digest, named
/// [`sha256_of`], depends on the input bytes alone.
#[verifier::external_body]
fn sha256_digest(data: &[u8]) -> (d: Vec<u8>)
    ensures
        d@ == sha256_of(data@),
        d@.len() == 32,
{
    Sha256::digest(data).to_vec()
}

/// `Aes256Gcm::generate_nonce(&mut OsRng)`: twelve bytes from the operating
/// system's random source. Only their number is claimed; the crate panics if
/// the operating system cannot supply randomness.
#[verifier::external_body]
fn random_nonce() -> (n: Vec<u8>)
    ensures
        n@.len() == NONCE_LEN,
{
    Aes256Gcm::generate_nonce(&mut OsRng).to_vec()
}

/// `Aes256Gcm::new_from_slice(key)` then `encrypt(nonce, plaintext)`. The
/// contract claims the result is [`aes256gcm_sealed`] of the three inputs,
/// sixteen bytes longer than the plaintext, and that the crate refuses only
/// plaintexts longer than its `P_MAX` of 2^36 bytes.
#[verifier::external_body]
fn aes_seal(key: &[u8], nonce: &[u8], plaintext: &[u8]) -> (r: Result<Vec<u8>, String>)
    requires
        key@.len() == 32,
        nonce@.len() == NONCE_LEN,
    ensures
        r matches Ok(c) ==> c@ == aes256gcm_sealed(key@, nonce@, plaintext@) && c@.len() == plaintext@.len() + 16,
        r is Ok <==> plaintext@.len() <= MAX_SEALED_PLAINTEXT,
{
    match Aes256Gcm::new_from_slice(key) {
        Ok(cipher) => cipher.encrypt(Nonce::from_slice(nonce), plaintext).map_err(|e| e.to_string()),
        Err(e) => Err(e.to_string()),
    }
}

/// `Aes256Gcm::new_from_slice(key)` then `decrypt(nonce, ciphertext)`. The
/// contract claims the result is [`aes256gcm_opened`] of the three inputs,
/// that a failure is reported as the displayed `aead::Error`, and what
/// authenticated decryption guarantees: a ciphertext that is the sealing of a
/// plaintext of at most 2^36 bytes under the same key and nonce opens to that
/// plaintext. A 32-byte key is always accepted by `new_from_slice`.
#[verifier::external_body]
fn aes_open(key: &[u8], nonce: &[u8], ciphertext: &[u8]) -> (r: Result<Vec<u8>, String>)
    requires
        key@.len() == 32,
        nonce@.len() == NONCE_LEN,
    ensures
        r is Ok <==> aes256gcm_opened(key@, nonce@, ciphertext@) is Some,
        r matches Ok(p) ==> aes256gcm_opened(key@, nonce@, ciphertext@) == Some(p@),
        r matches Err(e) ==> e@ == aead_error_text(),
        forall|p: Seq<u8>|
            p.len() <= MAX_SEALED_PLAINTEXT && #[trigger] aes256gcm_sealed(key@, nonce@, p) == ciphertext@
                ==> r is Ok && r->Ok_0@ == p,
{
    match Aes256Gcm::new_from_slice(key) {
        Ok(cipher) => cipher.decrypt(Nonce::from_slice(nonce), ciphertext).map_err(|e| e.to_string()),
        Err(e) => Err(e.to_string()),
    }
}

/// `base64::engine::general_purpose::STANDARD.encode(bytes)`: the contract
/// claims the text is [`base64_text`] of the bytes. The crate panics when the
/// length of the text would overflow `usize`, which `requires` rules out.
#[verifier::external_body]
fn base64_encode(bytes: &[u8]) -> (t: String)
    requires
        4 * (bytes@.len() / 3 + 1) <= usize::MAX,
    ensures
        t@ == base64_text(bytes@),
{
    base64::engine::general_purpose::STANDARD.encode(bytes)
}

/// `base64::engine::general_purpose::STANDARD.decode(text)`. The contract
/// claims the result is [`base64_decoded`] of the text, and that the engine,
/// which requires canonical padding, reads back what it wrote: the text of
/// some bytes decodes to those bytes. The text of a refusal (the engine's
/// `DecodeError` displayed) is not claimed.
#[verifier::external_body]
fn base64_decode(text: &str) -> (r: Result<Vec<u8>, String>)
    ensures
        r is Ok <==> base64_decoded(text@) is Some,
        r matches Ok(b) ==> base64_decoded(text@) == Some(b@),
        forall|b: Seq<u8>| #[trigger] base64_text(b) == text@ ==> r is Ok && r->Ok_0@ == b,
{
    base64::engine::general_purpose::STANDARD.decode(text).map_err(|e| e.to_string())
}

/// The key that protects stored provider credentials: the SHA-256 digest of
/// the server's secret.
pub open spec fn cipher_key(secret: &str) -> Seq<u8> {
    sha256_of(secret.spec_bytes())
}

/// Derives the credential key from the server's secret.
pub fn derive_cipher_key(secret: &str) -> (key: Vec<u8>)
    ensures
        key@ == cipher_key(secret),
        key@.len() == 32,
{
    sha256_digest(secret.as_bytes())
}

/// The stored text of a payload sealed with `nonce`: base64 of the nonce
/// followed by the sealed payload.
pub open spec fn sealed_payload_text(secret: &str, nonce: Seq<u8>, plaintext: Seq<u8>) -> Seq<char> {
    base64_text(nonce + aes256gcm_sealed(cipher_key(secret), nonce, plaintext))
}

/// Whether the stored text of a plaintext of this length fits in memory.
pub open spec fn storable_len(len: nat) -> bool {
    4 * ((len + 28) / 3 + 1) <= usize::MAX
}

/// Seals a provider payload under the server's secret with a given nonce.
pub fn seal_provider_payload(secret: &str, nonce: &Vec<u8>, plaintext: &[u8]) -> (r: Result<String, String>)
    requires
        nonce@.len() == NONCE_LEN,
        storable_len(plaintext@.len()),
    ensures
        r matches Ok(t) ==> t@ == sealed_payload_text(secret, nonce@, plaintext@),
        r is Ok <==> plaintext@.len() <= MAX_SEALED_PLAINTEXT,
{
    let key = derive_cipher_key(secret);
    let sealed = match aes_seal(key.as_slice(), nonce.as_slice(), plaintext) {
        Ok(c) => c,
        Err(e) => return Err(e),
    };
    let mut combined: Vec<u8> = Vec::new();
    let mut i: usize = 0;
    while i < nonce.len()
        invariant
            i <= nonce@.len(),
            combined@ == nonce@.take(i as int),
        decreases nonce@.len() - i,
    {
        combined.push(nonce[i]);
        assert(combined@ == nonce@.take(i + 1));
        i = i + 1;
    }
    let mut j: usize = 0;
    while j < sealed.len()
        invariant
            j <= sealed@.len(),
            combined@ == nonce@ + sealed@.take(j as int),
        decreases sealed@.len() - j,
    {
        combined.push(sealed[j]);
        assert(combined@ == nonce@ + sealed@.take(j + 1));
        j = j + 1;
    }
    assert(sealed@.take(sealed@.len() as int) == sealed@);
    assert(nonce@.take(nonce@.len() as int) == nonce@);
    Ok(base64_encode(combined.as_slice()))
}

/// Seals a provider payload under the server's secret with a fresh random
/// nonce, for storage.
pub fn encrypt_provider_payload(secret: &str, plaintext: &[u8]) -> (r: Result<String, String>)
    requires
        storable_len(plaintext@.len()),
    ensures
        r matches Ok(t) ==> exists|n: Seq<u8>| n.len() == NONCE_LEN && t@ == #[trigger] sealed_payload_text(secret, n, plaintext@),
        r is Ok <==> plaintext@.len() <= MAX_SEALED_PLAINTEXT,
{
    let nonce = random_nonce();
    seal_provider_payload(secret, &nonce, plaintext)
}

/// The error for stored text too short to hold a nonce.
pub open spec fn invalid_payload_text() -> Seq<char> {
    "Encrypted provider config payload is invalid."@
}

/// What stored text opens to under the server's secret: `None` where the
/// base64 engine refuses the text (its message is the error), the invalid
/// payload error where the decoded bytes cannot hold a nonce, and otherwise
/// what AES-256-GCM opens the bytes after the nonce to, or its error.
pub open spec fn opened_payload(secret: &str, text: Seq<char>) -> Option<Result<Seq<u8>, Seq<char>>> {
    match base64_decoded(text) {
        None => None,
        Some(b) => if b.len() < NONCE_LEN {
            Some(Err(invalid_payload_text()))
        } else {
            match aes256gcm_opened(cipher_key(secret), b.take(NONCE_LEN as int), b.skip(NONCE_LEN as int)) {
                Some(p) => Some(Ok(p)),
                None => Some(Err(aead_error_text())),
            }
        },
    }
}

/// Opens a stored provider payload: base64 of a nonce followed by the sealed
/// payload. Text the engine refuses is an error; decoded bytes too short to
/// hold a nonce give [`invalid_payload_text`]; otherwise the result is what
/// AES-256-GCM opens the rest to, or its error. Text that
/// `seal_provider_payload` wrote under the same secret opens to the
/// plaintext it sealed.
pub fn decrypt_provider_payload(secret: &str, encrypted: &str) -> (r: Result<Vec<u8>, String>)
    ensures
        match opened_payload(secret, encrypted@) {
            None => r is Err,
            Some(Ok(p)) => r is Ok && r->Ok_0@ == p,
            Some(Err(e)) => r is Err && r->Err_0@ == e,
        },
        forall|n: Seq<u8>, p: Seq<u8>|
            n.len() == NONCE_LEN && p.len() <= MAX_SEALED_PLAINTEXT && encrypted@ == #[trigger] sealed_payload_text(secret, n, p)
                ==> (r is Ok && r->Ok_0@ == p),
{
    let bytes = match base64_decode(encrypted) {
        Ok(b) => b,
        Err(e) => return Err(e),
    };
    if bytes.len() < NONCE_LEN {
        proof {
            assert forall|n: Seq<u8>, p: Seq<u8>|
                n.len() == NONCE_LEN && p.len() <= MAX_SEALED_PLAINTEXT && encrypted@ == #[trigger] sealed_payload_text(secret, n, p)
                implies false by {
                assert(base64_text(n + aes256gcm_sealed(cipher_key(secret), n, p)) == encrypted@);
            }
        }
        let e = String::from_str("Encrypted provider config payload is invalid.");
        proof {
            reveal_strlit("Encrypted provider config payload is invalid.");
        }
        return Err(e);
    }
    let mut nonce: Vec<u8> = Vec::new();
    let mut i: usize = 0;
    while i < NONCE_LEN
        invariant
            i <= NONCE_LEN <= bytes@.len(),
            nonce@ == bytes@.take(i as int),
        decreases NONCE_LEN - i,
    {
        nonce.push(bytes[i]);
        assert(nonce@ == bytes@.take(i + 1));
        i = i + 1;
    }
    let mut ciphertext: Vec<u8> = Vec::new();
    let mut j: usize = NONCE_LEN;
    while j < bytes.len()
        invariant
            NONCE_LEN <= j <= bytes@.len(),
            ciphertext@ == bytes@.subrange(NONCE_LEN as int, j as int),
        decreases bytes@.len() - j,
    {
        ciphertext.push(bytes[j]);
        assert(ciphertext@ == bytes@.subrange(NONCE_LEN as int, j + 1));
        j = j + 1;
    }
    let key = derive_cipher_key(secret);
    let r = aes_open(key.as_slice(), nonce.as_slice(), ciphertext.as_slice());
    proof {
        assert forall|n: Seq<u8>, p: Seq<u8>|
            n.len() == NONCE_LEN && p.len() <= MAX_SEALED_PLAINTEXT && encrypted@ == #[trigger] sealed_payload_text(secret, n, p)
            implies (r is Ok && r->Ok_0@ == p) by {
            let c = aes256gcm_sealed(cipher_key(secret), n, p);
            assert(base64_text(n + c) == encrypted@);
            assert(bytes@ == n + c);
            assert(nonce@ =~= n);
            assert(ciphertext@ =~= c);
        }
        assert(ciphertext@ =~= bytes@.skip(NONCE_LEN as int));
        assert(nonce@ =~= bytes@.take(NONCE_LEN as int));
    }
    r
}

} // verus!
