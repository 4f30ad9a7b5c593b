//! Password encryption and master key handling.
//!
//! Device passwords are stored encrypted with AES-256-GCM as
//! `nonce (12 bytes) || ciphertext`. The 32-byte master key is kept in the
//! operating system's key store (or given base64-encoded by the caller); the
//! key store itself is reached by the application, which hands its reply to
//! [`master_key_from_keyring`].
use vstd::prelude::*;

use aes_gcm::aead::{Aead, KeyInit};
use aes_gcm::{Aes256Gcm, Nonce};
use base64::engine::general_purpose::STANDARD;
use base64::Engine;
use rand::rngs::OsRng;
use rand::RngCore;

use crate::error::AppError;
use crate::text::{chars_of, owned, push_decimal, push_str, spec_decimal, spec_trim, trim};
use vstd::utf8::{decode_utf8, encode_utf8, valid_utf8};

verus! {

/// Length of the nonce that starts every encrypted value.
pub const NONCE_LEN: usize = 12;

/// Largest plaintext (and AAD) length in bytes that AES-GCM accepts.
pub const P_MAX: u64 = 0x10_0000_0000;

/// Length of the AES-GCM authentication tag.
pub const TAG_LEN: usize = 16;

// ---------------------------------------------------------------------------
// Names for what the outside functions compute
// ---------------------------------------------------------------------------
/// Ciphertext (with its 16-byte tag appended) that AES-256-GCM produces for
/// `plain` under `key` and `nonce`, with empty associated data.
pub uninterp spec fn spec_aes256gcm_seal(key: Seq<u8>, nonce: Seq<u8>, plain: Seq<u8>) -> Seq<u8>;

/// What AES-256-GCM decryption of `ct` under `key` and `nonce` (empty
/// associated data) yields; `None` when authentication fails.
pub uninterp spec fn spec_aes256gcm_open(key: Seq<u8>, nonce: Seq<u8>, ct: Seq<u8>) -> Option<Seq<u8>>;

/// The standard-alphabet, padded base64 decoding of `s`: the bytes, or the
/// text of the decoding error.
pub uninterp spec fn spec_base64_decode(s: Seq<char>) -> Result<Seq<u8>, Seq<char>>;

/// The standard-alphabet, padded base64 encoding of `bytes`.
pub uninterp spec fn spec_base64_encode(bytes: Seq<u8>) -> Seq<char>;

/// The text of the error that `String::from_utf8` reports for `bytes`.
pub uninterp spec fn spec_utf8_error_text(bytes: Seq<u8>) -> Seq<char>;

/// The bytes of a successful result.
pub open spec fn ok_bytes(r: Result<Vec<u8>, ()>) -> Option<Seq<u8>> {
    match r {
        Ok(v) => Some(v@),
        Err(_) => None,
    }
}

/// `opened` is the plaintext whenever `ct` is the sealing of a plaintext
/// under `key` and `nonce`.
pub open spec fn inverts_seal(key: Seq<u8>, nonce: Seq<u8>, ct: Seq<u8>, opened: Option<Seq<u8>>) -> bool {
    forall|p: Seq<u8>|
        p.len() <= P_MAX && #[trigger] spec_aes256gcm_seal(key, nonce, p) == ct ==> opened == Some(
            p,
        )
}

/// A character of the standard base64 alphabet, or the padding `=`.
pub open spec fn base64_char(c: char) -> bool {
    ||| ('A' <= c && c <= 'Z')
    ||| ('a' <= c && c <= 'z')
    ||| ('0' <= c && c <= '9')
    ||| c == '+'
    ||| c == '/'
    ||| c == '='
}

/// Every character of `text` is of the standard base64 alphabet or `=`.
pub open spec fn base64_text(text: Seq<char>) -> bool {
    forall|i: int| 0 <= i < text.len() ==> base64_char(#[trigger] text[i])
}

/// `text` is a base64 text that decodes to `bytes`.
pub open spec fn decodes_to(text: Seq<char>, bytes: Seq<u8>) -> bool {
    spec_base64_decode(text) matches Ok(b) && b == bytes
}

// ---------------------------------------------------------------------------
// Trusted calls
// ---------------------------------------------------------------------------
/// `Aead::encrypt` of `aes_gcm::Aes256Gcm` with empty associated data.
/// The source (aes-gcm 0.10, `encrypt_in_place_detached`) fails exactly when
/// the plaintext is longer than `P_MAX` bytes; otherwise the result is the
/// ciphertext, as long as the plaintext, followed by the 16-byte tag.
#[verifier::external_body]
fn aes256gcm_seal(key: &[u8; 32], nonce: &[u8; 12], plain: &[u8]) -> (r: Result<Vec<u8>, ()>)
    ensures
        r is Ok <==> plain@.len() <= P_MAX,
        r matches Ok(c) ==> c@ == spec_aes256gcm_seal(key@, nonce@, plain@) && c@.len()
            == plain@.len() + TAG_LEN,
{
    let cipher = Aes256Gcm::new(key.into());
    cipher.encrypt(Nonce::from_slice(nonce), plain).map_err(|_| ())
}

/// `Aead::decrypt` of `aes_gcm::Aes256Gcm` with empty associated data.
/// Decrypting what `Aead::encrypt` produced under the same key and nonce
/// gives back the plaintext (the defining property of an AEAD).
#[verifier::external_body]
fn aes256gcm_open(key: &[u8; 32], nonce: &[u8], ct: &[u8]) -> (r: Result<Vec<u8>, ()>)
    requires
        nonce@.len() == NONCE_LEN,
    ensures
        r matches Ok(p) ==> spec_aes256gcm_open(key@, nonce@, ct@) == Some(p@),
        r is Err ==> spec_aes256gcm_open(key@, nonce@, ct@) is None,
        inverts_seal(key@, nonce@, ct@, ok_bytes(r)),
{
    let cipher = Aes256Gcm::new(key.into());
    cipher.decrypt(Nonce::from_slice(nonce), ct).map_err(|_| ())
}

/// Fills a nonce from the operating system's random source
/// (`rand::rngs::OsRng::try_fill_bytes`). Nothing is stated of the value:
/// it is random. When the random source fails, its error text is given.
#[verifier::external_body]
fn random_nonce() -> (r: Result<[u8; 12], String>) {
    let mut n = [0u8; 12];
    OsRng.try_fill_bytes(&mut n).map_err(|e| e.to_string())?;
    Ok(n)
}

/// Fills a fresh 32-byte key from the operating system's random source
/// (`rand::rngs::OsRng::try_fill_bytes`); the value is random. When the
/// random source fails, its error text is given.
#[verifier::external_body]
fn random_key() -> (r: Result<[u8; 32], String>) {
    let mut k = [0u8; 32];
    OsRng.try_fill_bytes(&mut k).map_err(|e| e.to_string())?;
    Ok(k)
}

/// `base64::engine::general_purpose::STANDARD.decode`; the error is given
/// by its `Display` text.
#[verifier::external_body]
fn base64_decode(s: &str) -> (r: Result<Vec<u8>, String>)
    ensures
        r matches Ok(v) ==> spec_base64_decode(s@) matches Ok(b) && b == v@,
        r matches Err(e) ==> spec_base64_decode(s@) matches Err(m) && m == e@,
{
    STANDARD.decode(s).map_err(|e| e.to_string())
}

/// `base64::engine::general_purpose::STANDARD.encode`. The text uses the
/// standard alphabet with `=` padding, and decoding it gives the bytes
/// back, as the crate documents for this engine.
#[verifier::external_body]
fn base64_encode(bytes: &[u8]) -> (r: String)
    ensures
        r@ == spec_base64_encode(bytes@),
        decodes_to(r@, bytes@),
        base64_text(r@),
{
    STANDARD.encode(bytes)
}

/// `String::from_utf8` of std: succeeds exactly on valid UTF-8 and then
/// holds the decoded characters.
#[verifier::external_body]
fn string_from_utf8(bytes: Vec<u8>) -> (r: Result<String, String>)
    ensures
        r is Ok <==> valid_utf8(bytes@),
        r matches Ok(s) ==> s@ == decode_utf8(bytes@),
        r matches Err(e) ==> e@ == spec_utf8_error_text(bytes@),
{
    String::from_utf8(bytes).map_err(|e| e.to_string())
}

// ---------------------------------------------------------------------------
// Master key
// ---------------------------------------------------------------------------
/// The message for a key of the wrong length.
pub open spec fn key_length_message(len: nat) -> Seq<char> {
    "主金鑰長度需為 32 位元組，實際為 "@ + spec_decimal(len)
}

/// Turns decoded key bytes into a 32-byte key; any other length is refused.
pub fn to_key_array(bytes: &[u8]) -> (r: Result<[u8; 32], AppError>)
    ensures
        bytes@.len() == 32 ==> (r matches Ok(k) && k@ == bytes@),
        bytes@.len() != 32 ==> (r matches Err(AppError::Crypto(m)) && m@ == key_length_message(
            bytes@.len(),
        )),
{
    if bytes.len() != 32 {
        let mut m = owned("主金鑰長度需為 32 位元組，實際為 ");
        push_decimal(&mut m, bytes.len() as u128);
        return Err(AppError::Crypto(m));
    }
    let mut key = [0u8; 32];
    let mut i: usize = 0;
    while i < 32
        invariant
            bytes@.len() == 32,
            i <= 32,
            forall|k: int| 0 <= k < i ==> key@[k] == bytes@[k],
        decreases 32 - i,
    {
        key[i] = bytes[i];
        i = i + 1;
    }
    assert(key@ =~= bytes@);
    Ok(key)
}

/// The message for a key whose base64 text cannot be decoded.
pub open spec fn env_key_decode_message(e: Seq<char>) -> Seq<char> {
    "主金鑰 base64 解析失敗："@ + e
}

/// Reads the master key given base64-encoded (surrounding whitespace is
/// ignored), as it is when supplied through the environment.
pub fn master_key_from_env(b64: &str) -> (r: Result<[u8; 32], AppError>)
    ensures
        match spec_base64_decode(spec_trim(b64@)) {
            Err(e) => r matches Err(AppError::Crypto(m)) && m@ == env_key_decode_message(e),
            Ok(bytes) => if bytes.len() == 32 {
                r matches Ok(k) && k@ == bytes
            } else {
                r matches Err(AppError::Crypto(m)) && m@ == key_length_message(bytes.len())
            },
        },
{
    let t = trim(b64);
    match base64_decode(t.as_str()) {
        Err(e) => {
            let mut m = owned("主金鑰 base64 解析失敗：");
            push_str(&mut m, e.as_str());
            Err(AppError::Crypto(m))
        },
        Ok(bytes) => to_key_array(bytes.as_slice()),
    }
}

/// What the operating system's key store answered when asked for the
/// stored master key.
#[derive(Debug, Clone)]
pub enum StoredKey {
    /// The stored base64 text.
    Found(String),
    /// No key is stored yet.
    Missing,
    /// The key store failed, with this message.
    Failed(String),
}

/// The master key obtained from the key store.
#[derive(Debug, Clone)]
pub enum KeyringKey {
    /// The key that was stored.
    Existing([u8; 32]),
    /// A fresh random key; `encoded` (its base64 text) is to be stored.
    Created { key: [u8; 32], encoded: String },
}

/// A key created to be stored: `encoded` is its base64 text, which decodes
/// back to it and uses only base64 characters.
pub open spec fn created_as_stored(r: Result<KeyringKey, AppError>) -> bool {
    r matches Ok(KeyringKey::Created { key, encoded }) && encoded@ == spec_base64_encode(key@)
        && decodes_to(encoded@, key@) && base64_text(encoded@)
}

/// A new master key from what the random source gave: the key with its
/// base64 text to store, or a `Crypto` error with the source's message.
pub fn created_key(drawn: Result<[u8; 32], String>) -> (r: Result<KeyringKey, AppError>)
    ensures
        match drawn {
            Ok(k) => created_as_stored(r) && (r matches Ok(KeyringKey::Created { key, .. }) && key
                == k),
            Err(e) => r matches Err(AppError::Crypto(m)) && m == e,
        },
{
    match drawn {
        Ok(key) => {
            let encoded = base64_encode(key.as_slice());
            Ok(KeyringKey::Created { key, encoded })
        },
        Err(e) => Err(AppError::Crypto(e)),
    }
}

/// A key stored as its base64 text is read back from the key store as the
/// same key: the text, trimmed, decodes to the 32 bytes of the key, so
/// [`master_key_from_keyring`] answers `Existing` with that key.
pub proof fn lemma_stored_key_read_back(key: Seq<u8>, encoded: Seq<char>)
    requires
        key.len() == 32,
        decodes_to(encoded, key),
        base64_text(encoded),
    ensures
        spec_base64_decode(spec_trim(encoded)) == Ok::<Seq<u8>, Seq<char>>(key),
{
    assert forall|i: int| 0 <= i < encoded.len() implies !crate::text::is_ws(
        #[trigger] encoded[i],
    ) by {
        assert(base64_char(encoded[i]));
    }
    crate::text::lemma_trim_no_ws(encoded);
}

/// What a stored key text is read as: the 32 bytes it decodes to (after
/// trimming), or the detail of the `Crypto` error (the decoding error, or
/// the wrong length).
pub open spec fn spec_stored_key(b64: Seq<char>) -> Result<Seq<u8>, Seq<char>> {
    match spec_base64_decode(spec_trim(b64)) {
        Err(e) => Err(e),
        Ok(bytes) => if bytes.len() == 32 {
            Ok(bytes)
        } else {
            Err(key_length_message(bytes.len()))
        },
    }
}

/// Creating a key and then reading it back: when the key store holds no
/// key, [`master_key_from_keyring`] creates one (or fails with a `Crypto`
/// error); once the created key's text is stored, the next call, given that
/// text, answers `Existing` with the same key.
pub proof fn lemma_keyring_create_then_read(first: Result<KeyringKey, AppError>)
    requires
        created_as_stored(first),
    ensures
        first matches Ok(KeyringKey::Created { key, encoded }) ==> spec_stored_key(encoded@)
            == Ok::<Seq<u8>, Seq<char>>(key@),
{
    if let Ok(KeyringKey::Created { key, encoded }) = first {
        assert(key@.len() == 32);
        lemma_stored_key_read_back(key@, encoded@);
    }
}

/// Decides the master key from the key store's answer: a stored key is
/// decoded, a missing one is created at random, a failure is reported.
pub fn master_key_from_keyring(stored: StoredKey) -> (r: Result<KeyringKey, AppError>)
    ensures
        match stored {
            StoredKey::Found(b64) => match spec_stored_key(b64@) {
                Ok(bytes) => r matches Ok(KeyringKey::Existing(k)) && k@ == bytes,
                Err(e) => r matches Err(AppError::Crypto(m)) && m@ == e,
            },
            StoredKey::Missing => created_as_stored(r) || (r matches Err(AppError::Crypto(_))),
            StoredKey::Failed(msg) => r matches Err(AppError::Keyring(m)) && m@ == msg@,
        },
{
    match stored {
        StoredKey::Found(b64) => {
            let t = trim(b64.as_str());
            match base64_decode(t.as_str()) {
                Err(e) => Err(AppError::Crypto(e)),
                Ok(bytes) => match to_key_array(bytes.as_slice()) {
                    Ok(k) => Ok(KeyringKey::Existing(k)),
                    Err(e) => Err(e),
                },
            }
        },
        StoredKey::Missing => created_key(random_key()),
        StoredKey::Failed(msg) => Err(AppError::Keyring(msg)),
    }
}

// ---------------------------------------------------------------------------
// Encryption
// ---------------------------------------------------------------------------
/// The stored form of `plain` under `key` and `nonce`: the nonce followed by
/// the AES-256-GCM ciphertext of the UTF-8 bytes of `plain`.
pub open spec fn spec_sealed(key: Seq<u8>, nonce: Seq<u8>, plain: Seq<char>) -> Seq<u8> {
    nonce + spec_aes256gcm_seal(key, nonce, encode_utf8(plain))
}

/// Encrypts `plain` with the given nonce into `nonce || ciphertext`.
pub fn encrypt_with_nonce(key: &[u8; 32], nonce: &[u8; 12], plain: &str) -> (r: Result<
    Vec<u8>,
    AppError,
>)
    ensures
        encode_utf8(plain@).len() <= P_MAX ==> (r matches Ok(out) && out@ == spec_sealed(
            key@,
            nonce@,
            plain@,
        ) && out@.len() == NONCE_LEN + encode_utf8(plain@).len() + TAG_LEN),
        encode_utf8(plain@).len() > P_MAX ==> (r matches Err(AppError::Crypto(m)) && m@
            == "aead::Error"@),
{
    match aes256gcm_seal(key, nonce, plain.as_bytes()) {
        Err(_) => Err(AppError::Crypto(owned("aead::Error"))),
        Ok(ct) => {
            let mut out: Vec<u8> = Vec::new();
            let mut i: usize = 0;
            while i < NONCE_LEN
                invariant
                    i <= NONCE_LEN,
                    nonce@.len() == NONCE_LEN,
                    out@ == nonce@.subrange(0, i as int),
                decreases NONCE_LEN - i,
            {
                out.push(nonce[i]);
                i = i + 1;
                assert(out@ =~= nonce@.subrange(0, i as int));
            }
            let mut j: usize = 0;
            while j < ct.len()
                invariant
                    j <= ct@.len(),
                    out@ == nonce@ + ct@.subrange(0, j as int),
                decreases ct.len() - j,
            {
                out.push(ct[j]);
                j = j + 1;
                assert(out@ =~= nonce@ + ct@.subrange(0, j as int));
            }
            assert(ct@.subrange(0, ct@.len() as int) =~= ct@);
            Ok(out)
        },
    }
}

/// Encrypts `plain` with the nonce the random source gave; a failure of
/// the random source is a `Crypto` error with its message.
pub fn encrypt_with_drawn_nonce(
    key: &[u8; 32],
    drawn: Result<[u8; 12], String>,
    plain: &str,
) -> (r: Result<Vec<u8>, AppError>)
    ensures
        match drawn {
            Err(e) => r matches Err(AppError::Crypto(m)) && m == e,
            Ok(nonce) => if encode_utf8(plain@).len() <= P_MAX {
                r matches Ok(out) && out@ == spec_sealed(key@, nonce@, plain@) && out@.len()
                    == NONCE_LEN + encode_utf8(plain@).len() + TAG_LEN
            } else {
                r matches Err(AppError::Crypto(m)) && m@ == "aead::Error"@
            },
        },
{
    match drawn {
        Err(e) => Err(AppError::Crypto(e)),
        Ok(nonce) => encrypt_with_nonce(key, &nonce, plain),
    }
}

/// Encrypts `plain` under `key` with a fresh random nonce, giving
/// `nonce(12) || ciphertext`. It fails with a `Crypto` error when the text
/// is too long for AES-GCM, or when the random source fails.
pub fn encrypt(key: &[u8; 32], plain: &str) -> (r: Result<Vec<u8>, AppError>)
    ensures
        r matches Ok(out) ==> encode_utf8(plain@).len() <= P_MAX && out@.len() == NONCE_LEN
            + encode_utf8(plain@).len() + TAG_LEN && out@ == spec_sealed(
            key@,
            out@.take(NONCE_LEN as int),
            plain@,
        ),
        r is Err ==> (r matches Err(AppError::Crypto(_))),
        encode_utf8(plain@).len() > P_MAX ==> r is Err,
{
    let drawn = random_nonce();
    let r = encrypt_with_drawn_nonce(key, drawn, plain);
    proof {
        if r is Ok {
            assert(r->Ok_0@.take(NONCE_LEN as int) =~= drawn->Ok_0@);
        }
    }
    r
}

/// What [`decrypt`] gives for `data` under `key`: the plain text, or the
/// detail of the `Crypto` error.
pub open spec fn spec_decrypt(key: Seq<u8>, data: Seq<u8>) -> Result<Seq<char>, Seq<char>> {
    if data.len() < NONCE_LEN {
        Err("密文長度不足"@)
    } else {
        match spec_aes256gcm_open(
            key,
            data.take(NONCE_LEN as int),
            data.skip(NONCE_LEN as int),
        ) {
            None => Err("aead::Error"@),
            Some(p) => if valid_utf8(p) {
                Ok(decode_utf8(p))
            } else {
                Err(spec_utf8_error_text(p))
            },
        }
    }
}

/// Decrypts `nonce(12) || ciphertext` back into the plain text.
///
/// Decrypting what [`encrypt`] (or [`encrypt_with_nonce`]) produced under
/// the same key gives back the text that was encrypted.
pub fn decrypt(key: &[u8; 32], data: &[u8]) -> (r: Result<String, AppError>)
    ensures
        match r {
            Ok(s) => spec_decrypt(key@, data@) == Ok::<Seq<char>, Seq<char>>(s@),
            Err(AppError::Crypto(m)) => spec_decrypt(key@, data@) == Err::<Seq<char>, Seq<char>>(
                m@,
            ),
            Err(_) => false,
        },
        forall|nonce: Seq<u8>, plain: Seq<char>|
            nonce.len() == NONCE_LEN && encode_utf8(plain).len() <= P_MAX && #[trigger] spec_sealed(
                key@,
                nonce,
                plain,
            ) == data@ ==> (r matches Ok(s) && s@ == plain),
{
    if data.len() < NONCE_LEN {
        return Err(AppError::Crypto(owned("密文長度不足")));
    }
    let (nonce, ct) = data.split_at(NONCE_LEN);
    assert(nonce@ == data@.take(NONCE_LEN as int));
    assert(ct@ == data@.skip(NONCE_LEN as int));
    proof {
        assert forall|n: Seq<u8>, plain: Seq<char>|
            n.len() == NONCE_LEN && encode_utf8(plain).len() <= P_MAX && #[trigger] spec_sealed(
                key@,
                n,
                plain,
            ) == data@ implies nonce@ == n && ct@ == spec_aes256gcm_seal(
            key@,
            n,
            encode_utf8(plain),
        ) by {
            assert(data@.take(NONCE_LEN as int) =~= n);
            assert(data@.skip(NONCE_LEN as int) =~= spec_aes256gcm_seal(
                key@,
                n,
                encode_utf8(plain),
            ));
        }
    }
    match aes256gcm_open(key, nonce, ct) {
        Err(_) => Err(AppError::Crypto(owned("aead::Error"))),
        Ok(p) => {
            let ghost pb = p@;
            proof {
                assert forall|n: Seq<u8>, plain: Seq<char>|
                    n.len() == NONCE_LEN && encode_utf8(plain).len() <= P_MAX
                        && #[trigger] spec_sealed(key@, n, plain) == data@ implies valid_utf8(pb)
                    && decode_utf8(pb) == plain by {
                    assert(spec_aes256gcm_seal(key@, nonce@, encode_utf8(plain)) == ct@);
                    vstd::utf8::encode_utf8_valid_utf8(plain);
                    vstd::utf8::encode_utf8_decode_utf8(plain);
                }
            }
            match string_from_utf8(p) {
                Ok(s) => Ok(s),
                Err(e) => Err(AppError::Crypto(e)),
            }
        },
    }
}

} // verus!
