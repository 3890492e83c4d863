//! Credential vault: authenticated encryption of host secrets.
//!
//! A secret is sealed with AES-256-GCM under a fresh 96-bit random nonce and
//! stored as `base64(nonce ++ ciphertext ++ tag)`. Decryption fails closed on
//! malformed base64, on data shorter than the nonce, on an authentication-tag
//! mismatch, and on recovered bytes that are not UTF-8; it never returns
//! partial or altered plaintext.
//!
//! The 256-bit key is derived by padding or truncating a configured secret to
//! 32 bytes. That scheme is kept for compatibility with secrets already
//! stored; it is weak key hygiene, and replacing it with a real key-derivation
//! function would change the on-disk format.

use vstd::prelude::*;
use vstd::string::*;
use vstd::utf8::*;
use crate::errors::VaultError;
use crate::text::{byte_range, push_all};

verus! {

broadcast use vstd::string::group_string_axioms;

/// What ring's AES-256-GCM sealing returns for a key, nonce and plaintext:
/// the ciphertext with the 16-byte tag appended. Deterministic in its
/// arguments.
pub uninterp spec fn gcm_seal(key: Seq<u8>, nonce: Seq<u8>, plaintext: Seq<u8>) -> Seq<u8>;

/// What ring's AES-256-GCM opening returns for a key, nonce and tagged
/// ciphertext: the plaintext when the tag verifies, nothing otherwise.
pub uninterp spec fn gcm_open(key: Seq<u8>, nonce: Seq<u8>, ciphertext: Seq<u8>) -> Option<
    Seq<u8>,
>;

/// The canonical padded base64 text of a byte sequence.
pub uninterp spec fn b64_of(bytes: Seq<u8>) -> Seq<char>;

/// What base64's standard decoder accepts: the encoded bytes for well-formed
/// input, nothing otherwise.
pub uninterp spec fn b64_parse(text: Seq<char>) -> Option<Seq<u8>>;

/// The longest plaintext AES-GCM sealing accepts, in bytes: NIST's limit of
/// (2^39 - 256) bits.
pub open spec fn gcm_seal_input_limit() -> nat {
    68719476704
}

/// The 256-bit key derived from a configured secret: its first 32 bytes,
/// zero-padded on the right when the secret is shorter.
pub open spec fn derived_key(secret: Seq<u8>) -> Seq<u8> {
    Seq::new(32, |i: int| if i < secret.len() { secret[i] } else { 0u8 })
}

/// The bytes a token yields before UTF-8 decoding: base64-decode, split off
/// the 12-byte nonce, open the remainder.
pub open spec fn recovered_bytes(key: Seq<u8>, token: Seq<char>) -> Option<Seq<u8>> {
    match b64_parse(token) {
        None => None,
        Some(data) => {
            if data.len() < 12 {
                None
            } else {
                gcm_open(key, data.take(12), data.skip(12))
            }
        },
    }
}

/// The plaintext a token decrypts to under a key, if any: recovered bytes
/// that also form valid UTF-8.
pub open spec fn decrypt_spec(key: Seq<u8>, token: Seq<char>) -> Option<Seq<char>> {
    match recovered_bytes(key, token) {
        None => None,
        Some(b) => {
            if valid_utf8(b) {
                Some(decode_utf8(b))
            } else {
                None
            }
        },
    }
}

/// The token is a genuine encryption of `p` under `key`: it decodes to a
/// nonce followed by exactly the ciphertext that sealing `p`'s bytes under
/// that nonce produces.
pub open spec fn token_is_seal_of(key: Seq<u8>, token: Seq<char>, p: Seq<char>) -> bool {
    &&& b64_parse(token) matches Some(data)
    &&& b64_parse(token)->0.len() >= 12
    &&& b64_parse(token)->0.skip(12) == gcm_seal(
        key,
        b64_parse(token)->0.take(12),
        encode_utf8(p),
    )
}

/// Relies on ring's `SystemRandom::fill`: fills the buffer from the system's
/// secure random source. Nothing is assumed of the bytes beyond their count.
#[verifier::external_body]
fn random_nonce() -> (r: Result<Vec<u8>, VaultError>)
    ensures
        r matches Ok(v) ==> v@.len() == 12,
{
    let mut buf = vec![0u8; 12];
    ring::rand::SecureRandom::fill(&ring::rand::SystemRandom::new(), &mut buf)
        .map_err(|_| VaultError::Encrypt)?;
    Ok(buf)
}

/// Relies on ring's AES-256-GCM sealing (`UnboundKey::new`,
/// `LessSafeKey::seal_in_place_append_tag`): the result is deterministic in
/// key, nonce and plaintext, is the plaintext's length plus the 16-byte tag,
/// and opening it under the same key and nonce returns the plaintext. With a
/// 32-byte key and a 12-byte nonce the only failure ring has is a plaintext
/// over its input limit.
#[verifier::external_body]
fn gcm_seal_bytes(key: &Vec<u8>, nonce: &Vec<u8>, plaintext: &Vec<u8>) -> (r: Result<
    Vec<u8>,
    VaultError,
>)
    requires
        key@.len() == 32,
        nonce@.len() == 12,
    ensures
        r matches Ok(c) ==> c@ == gcm_seal(key@, nonce@, plaintext@),
        r matches Ok(c) ==> c@.len() == plaintext@.len() + 16,
        r matches Ok(c) ==> gcm_open(key@, nonce@, c@) == Some(plaintext@),
        r is Err ==> plaintext@.len() > gcm_seal_input_limit(),
{
    let unbound = ring::aead::UnboundKey::new(&ring::aead::AES_256_GCM, key.as_slice())
        .map_err(|_| VaultError::KeyInit)?;
    let sealing = ring::aead::LessSafeKey::new(unbound);
    let n = ring::aead::Nonce::try_assume_unique_for_key(nonce.as_slice())
        .map_err(|_| VaultError::Encrypt)?;
    let mut buf = plaintext.clone();
    sealing.seal_in_place_append_tag(n, ring::aead::Aad::empty(), &mut buf)
        .map_err(|_| VaultError::Encrypt)?;
    Ok(buf)
}

/// Relies on ring's AES-256-GCM opening (`LessSafeKey::open_in_place`): it
/// recomputes the tag over the ciphertext and succeeds only when it matches,
/// so a success identifies the input as the seal of the returned plaintext;
/// GCM's counter mode makes seal and open mutually inverse for a fixed key
/// and nonce.
#[verifier::external_body]
fn gcm_open_bytes(key: &Vec<u8>, nonce: &Vec<u8>, ciphertext: &Vec<u8>) -> (r: Result<
    Vec<u8>,
    VaultError,
>)
    requires
        key@.len() == 32,
        nonce@.len() == 12,
    ensures
        r matches Ok(p) ==> gcm_open(key@, nonce@, ciphertext@) == Some(p@),
        r matches Ok(p) ==> ciphertext@ == gcm_seal(key@, nonce@, p@),
        r is Err <==> gcm_open(key@, nonce@, ciphertext@) is None,
        r matches Err(e) ==> e == VaultError::Decrypt,
{
    let unbound = ring::aead::UnboundKey::new(&ring::aead::AES_256_GCM, key.as_slice())
        .map_err(|_| VaultError::Decrypt)?;
    let opening = ring::aead::LessSafeKey::new(unbound);
    let n = ring::aead::Nonce::try_assume_unique_for_key(nonce.as_slice())
        .map_err(|_| VaultError::Decrypt)?;
    let mut buf = ciphertext.clone();
    let plain = opening.open_in_place(n, ring::aead::Aad::empty(), &mut buf)
        .map_err(|_| VaultError::Decrypt)?;
    Ok(plain.to_vec())
}

/// Relies on base64's `STANDARD` engine `encode`: the canonical padded
/// base64 text of the bytes, which the same engine's decode inverts.
#[verifier::external_body]
fn b64_encode_bytes(data: &Vec<u8>) -> (r: String)
    ensures
        r@ == b64_of(data@),
        b64_parse(r@) == Some(data@),
{
    base64::Engine::encode(&base64::engine::general_purpose::STANDARD, data.as_slice())
}

/// Relies on base64's `STANDARD` engine `decode`: succeeds exactly on the
/// strings it recognises as padded base64 and returns the encoded bytes.
#[verifier::external_body]
fn b64_decode_str(text: &str) -> (r: Result<Vec<u8>, VaultError>)
    ensures
        r matches Ok(v) ==> b64_parse(text@) == Some(v@),
        r is Err <==> b64_parse(text@) is None,
        r matches Err(e) ==> e == VaultError::Decrypt,
{
    base64::Engine::decode(&base64::engine::general_purpose::STANDARD, text)
        .map_err(|_| VaultError::Decrypt)
}

/// Relies on `String::from_utf8`: succeeds exactly on valid UTF-8 and
/// decodes it.
#[verifier::external_body]
fn utf8_to_string(bytes: Vec<u8>) -> (r: Result<String, VaultError>)
    ensures
        r matches Ok(s) ==> valid_utf8(bytes@) && s@ == decode_utf8(bytes@),
        r is Err <==> !valid_utf8(bytes@),
        r matches Err(e) ==> e == VaultError::Encoding,
{
    String::from_utf8(bytes).map_err(|_| VaultError::Encoding)
}

/// The credential vault: a 256-bit AES-GCM key, immutable once constructed.
/// Key material never appears in errors or results.
pub struct Encryptor {
    key: Vec<u8>,
}

impl Encryptor {
    /// The key holds exactly 32 bytes.
    pub closed spec fn wf(&self) -> bool {
        self.key@.len() == 32
    }

    /// The key bytes, for specifications only.
    pub closed spec fn key_view(&self) -> Seq<u8> {
        self.key@
    }

    /// Builds a vault from a configured secret, deriving the key by
    /// zero-padding or truncating the secret's bytes to 32.
    pub fn new(secret: &str) -> (r: Encryptor)
        ensures
            r.wf(),
            r.key_view() == derived_key(secret.spec_bytes()),
    {
        let sb: Vec<u8> = secret.as_bytes_vec();
        let mut key: Vec<u8> = Vec::new();
        let mut i: usize = 0;
        while i < 32
            invariant
                i <= 32,
                key@.len() == i,
                forall|j: int|
                    0 <= j < i ==> key@[j] == (if j < sb@.len() {
                        sb@[j]
                    } else {
                        0u8
                    }),
            decreases 32 - i,
        {
            if i < sb.len() {
                let b = sb[i];
                key.push(b);
            } else {
                key.push(0u8);
            }
            i += 1;
        }
        proof {
            assert(key@ =~= derived_key(secret.spec_bytes()));
        }
        Encryptor { key }
    }

    /// Encrypts a plaintext under a fresh random nonce.
    ///
    /// Round trip: any token this returns decrypts, under the same key, to
    /// exactly the input plaintext — see `decrypt_spec` and `decrypt`'s
    /// contract — and decodes to a 12-byte nonce, the ciphertext and the
    /// 16-byte tag. Errors only reflect the random source or the cipher
    /// refusing the input.
    pub fn encrypt(&self, plaintext: &str) -> (r: Result<String, VaultError>)
        requires
            self.wf(),
        ensures
            r matches Ok(token) ==> decrypt_spec(self.key_view(), token@) == Some(plaintext@),
            r matches Ok(token) ==> token_is_seal_of(self.key_view(), token@, plaintext@),
            r matches Ok(token) ==> (b64_parse(token@) matches Some(data) && data.len() == 12
                + encode_utf8(plaintext@).len() + 16),
    {
        let nonce = match random_nonce() {
            Ok(n) => n,
            Err(e) => {
                return Err(e);
            },
        };
        self.encrypt_with_nonce(plaintext, &nonce)
    }

    /// Encrypts a plaintext under a caller-supplied 12-byte nonce. The nonce
    /// must never repeat for one key; `encrypt` draws a fresh random one.
    ///
    /// The token is pinned down exactly: the base64 of the nonce followed by
    /// the seal of the plaintext's bytes under it. The call succeeds for
    /// every plaintext the cipher accepts — everything up to its input
    /// limit, far beyond any credential.
    pub fn encrypt_with_nonce(&self, plaintext: &str, nonce: &Vec<u8>) -> (r: Result<
        String,
        VaultError,
    >)
        requires
            self.wf(),
            nonce@.len() == 12,
        ensures
            r matches Ok(token) ==> token@ == b64_of(
                nonce@ + gcm_seal(self.key_view(), nonce@, encode_utf8(plaintext@)),
            ),
            r matches Ok(token) ==> decrypt_spec(self.key_view(), token@) == Some(plaintext@),
            r matches Ok(token) ==> token_is_seal_of(self.key_view(), token@, plaintext@),
            r matches Ok(token) ==> (b64_parse(token@) matches Some(data) && data.take(12)
                == nonce@ && data.len() == 12 + encode_utf8(plaintext@).len() + 16),
            r is Err ==> encode_utf8(plaintext@).len() > gcm_seal_input_limit(),
    {
        broadcast use vstd::utf8::encode_utf8_valid_utf8, vstd::utf8::encode_utf8_decode_utf8;

        let pt: Vec<u8> = plaintext.as_bytes_vec();
        let sealed = match gcm_seal_bytes(&self.key, nonce, &pt) {
            Ok(c) => c,
            Err(e) => {
                return Err(e);
            },
        };
        let mut data: Vec<u8> = Vec::new();
        push_all(&mut data, nonce);
        push_all(&mut data, &sealed);
        let token = b64_encode_bytes(&data);
        proof {
            assert(data@.take(12) =~= nonce@);
            assert(data@.skip(12) =~= sealed@);
        }
        Ok(token)
    }

    /// Decrypts a vault token.
    ///
    /// Fails closed: `Decrypt` on malformed base64, on data shorter than the
    /// nonce, and on an authentication-tag mismatch; `Encoding` when the
    /// recovered bytes are not UTF-8. A returned plaintext is always the one
    /// whose genuine encryption the token is (`token_is_seal_of`): tampering
    /// can never surface as altered plaintext.
    pub fn decrypt(&self, token: &str) -> (r: Result<String, VaultError>)
        requires
            self.wf(),
        ensures
            r matches Ok(p) ==> decrypt_spec(self.key_view(), token@) == Some(p@),
            r is Err <==> decrypt_spec(self.key_view(), token@) is None,
            r == Err::<String, VaultError>(VaultError::Decrypt) <==> recovered_bytes(
                self.key_view(),
                token@,
            ) is None,
            r == Err::<String, VaultError>(VaultError::Encoding) <==> (recovered_bytes(
                self.key_view(),
                token@,
            ) matches Some(b) && !valid_utf8(b)),
            r matches Ok(p) ==> token_is_seal_of(self.key_view(), token@, p@),
    {
        broadcast use vstd::utf8::decode_utf8_encode_utf8;

        let data = match b64_decode_str(token) {
            Ok(d) => d,
            Err(e) => {
                return Err(e);
            },
        };
        if data.len() < 12 {
            return Err(VaultError::Decrypt);
        }
        let nonce = byte_range(&data, 0, 12);
        let body = byte_range(&data, 12, data.len());
        proof {
            assert(nonce@ =~= data@.take(12));
            assert(body@ =~= data@.skip(12));
        }
        let plain = match gcm_open_bytes(&self.key, &nonce, &body) {
            Ok(p) => p,
            Err(e) => {
                return Err(e);
            },
        };
        match utf8_to_string(plain) {
            Ok(s) => Ok(s),
            Err(e) => Err(e),
        }
    }
}

} // verus!
