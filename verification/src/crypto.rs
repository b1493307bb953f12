//! Key derivation and the sealed envelope.
//!
//! A key is derived from the master password with Argon2id and seals
//! payloads with AES-256-GCM under a fresh random nonce.

use crate::error::Error;
use aes_gcm::aead::Aead;
use aes_gcm::KeyInit;
use rand::RngCore;
use vstd::prelude::*;
use vstd::slice::*;
use vstd::string::*;

verus! {

/// Memory cost of the key derivation, in KiB (64 MiB).
pub const ARGON2_MEMORY_KB: u32 = 65536;

/// Number of passes of the key derivation.
pub const ARGON2_ITERATIONS: u32 = 3;

/// Number of lanes of the key derivation.
pub const ARGON2_PARALLELISM: u32 = 4;

/// Length of a vault's salt, in bytes.
pub const SALT_LEN: usize = 32;

/// Length of a key, in bytes.
pub const KEY_LEN: usize = 32;

/// Length of a nonce, in bytes.
pub const NONCE_LEN: usize = 12;

/// Length of the authentication tag that closes every ciphertext.
pub const TAG_LEN: usize = 16;

/// The longest plaintext that one nonce may seal, in bytes.
pub const MAX_PLAINTEXT_LEN: u64 = 0x10_0000_0000;

/// The shortest salt the key derivation takes.
pub const MIN_SALT_LEN: usize = 8;

/// The longest password or salt the key derivation takes.
pub const MAX_KDF_INPUT_LEN: u64 = 0xFFFF_FFFF;

/// The Argon2id (version 0x13) hash of `password` and `salt` under the given
/// costs, `out_len` bytes long: what `argon2::Argon2::hash_password_into`
/// writes.
pub uninterp spec fn argon2id(
    password: Seq<u8>,
    salt: Seq<u8>,
    m_cost: u32,
    t_cost: u32,
    p_cost: u32,
    out_len: nat,
) -> Seq<u8>;

/// The AES-256-GCM ciphertext, tag included, of `plaintext` under `key` and
/// `nonce` with no associated data: what `aes_gcm::Aes256Gcm::encrypt` returns.
pub uninterp spec fn aes256_gcm_seal(key: Seq<u8>, nonce: Seq<u8>, plaintext: Seq<u8>) -> Seq<u8>;

/// The plaintext that `aes_gcm::Aes256Gcm::decrypt` returns for `ciphertext`
/// under `key` and `nonce`, or `None` where it reports an error.
pub uninterp spec fn aes256_gcm_open(key: Seq<u8>, nonce: Seq<u8>, ciphertext: Seq<u8>) -> Option<
    Seq<u8>,
>;

/// The inputs on which Argon2 computes a hash instead of reporting an error.
pub open spec fn argon2_accepts(
    password_len: nat,
    salt_len: nat,
    m_cost: u32,
    t_cost: u32,
    p_cost: u32,
    out_len: nat,
) -> bool {
    &&& m_cost >= 8
    &&& m_cost >= 8 * p_cost
    &&& t_cost >= 1
    &&& 1 <= p_cost <= 0xFF_FFFF
    &&& 4 <= out_len <= 0xFFFF_FFFF
    &&& password_len <= 0xFFFF_FFFF
    &&& 8 <= salt_len <= 0xFFFF_FFFF
}

/// Calls `argon2::Params::new`, `argon2::Argon2::new` and
/// `argon2::Argon2::hash_password_into` with the Argon2id algorithm, version
/// 0x13. Trusted: the call fails exactly on the inputs that the crate's
/// parameter and length checks reject, handing back the crate's own words
/// for the fault, and otherwise fills `out_len` bytes that depend on the
/// arguments alone.
#[verifier::external_body]
fn argon2id_hash(
    password: &[u8],
    salt: &[u8],
    m_cost: u32,
    t_cost: u32,
    p_cost: u32,
    out_len: usize,
) -> (r: Result<Vec<u8>, String>)
    requires
        p_cost <= 0xFF_FFFF,
    ensures
        r is Ok <==> argon2_accepts(
            password@.len(),
            salt@.len(),
            m_cost,
            t_cost,
            p_cost,
            out_len as nat,
        ),
        r matches Ok(out) ==> out@.len() == out_len && out@ == argon2id(
            password@,
            salt@,
            m_cost,
            t_cost,
            p_cost,
            out_len as nat,
        ),
{
    let params = argon2::Params::new(m_cost, t_cost, p_cost, Some(out_len)).map_err(
        |e| e.to_string(),
    )?;
    let hasher = argon2::Argon2::new(argon2::Algorithm::Argon2id, argon2::Version::V0x13, params);
    let mut out = vec![0u8; out_len];
    hasher.hash_password_into(password, salt, &mut out).map_err(|e| e.to_string())?;
    Ok(out)
}

/// Calls `aes_gcm::Aes256Gcm::encrypt` (the `Aead` trait) with no associated
/// data; an error comes back as the crate's text for it. Trusted: the call
/// fails exactly when the plaintext is longer than 2^36 bytes; the ciphertext depends on the arguments alone, is 16 bytes
/// longer than the plaintext, and `decrypt` under the same key and nonce
/// gives the plaintext back.
#[verifier::external_body]
fn aes256_gcm_encrypt(key: &[u8], nonce: &[u8], plaintext: &[u8]) -> (r: Result<
    Vec<u8>,
    String,
>)
    requires
        key@.len() == KEY_LEN,
        nonce@.len() == NONCE_LEN,
    ensures
        r is Ok <==> plaintext@.len() <= MAX_PLAINTEXT_LEN,
        r matches Ok(sealed) ==> {
            &&& sealed@ == aes256_gcm_seal(key@, nonce@, plaintext@)
            &&& sealed@.len() == plaintext@.len() + TAG_LEN
            &&& aes256_gcm_open(key@, nonce@, sealed@) == Some(plaintext@)
        },
{
    let cipher = aes_gcm::Aes256Gcm::new(aes_gcm::Key::<aes_gcm::Aes256Gcm>::from_slice(key));
    cipher.encrypt(aes_gcm::Nonce::from_slice(nonce), plaintext).map_err(|e| e.to_string())
}

/// Calls `aes_gcm::Aes256Gcm::decrypt` (the `Aead` trait) with no associated
/// data; an error comes back as the crate's text for it. Trusted: whether
/// the call succeeds, and with which plaintext, depends on the arguments
/// alone.
#[verifier::external_body]
fn aes256_gcm_decrypt(key: &[u8], nonce: &[u8], ciphertext: &[u8]) -> (r: Result<
    Vec<u8>,
    String,
>)
    requires
        key@.len() == KEY_LEN,
        nonce@.len() == NONCE_LEN,
    ensures
        match r {
            Ok(plaintext) => aes256_gcm_open(key@, nonce@, ciphertext@) == Some(plaintext@),
            Err(_) => aes256_gcm_open(key@, nonce@, ciphertext@) is None,
        },
{
    let cipher = aes_gcm::Aes256Gcm::new(aes_gcm::Key::<aes_gcm::Aes256Gcm>::from_slice(key));
    cipher.decrypt(aes_gcm::Nonce::from_slice(nonce), ciphertext).map_err(|e| e.to_string())
}

/// Calls `rand::thread_rng` and `rand::RngCore::fill_bytes`. Trusted: the
/// buffer that comes back has the length asked for; nothing is claimed of the
/// bytes in it.
#[verifier::external_body]
fn random_bytes(len: usize) -> (r: Vec<u8>)
    ensures
        r@.len() == len,
{
    let mut buffer = vec![0u8; len];
    rand::thread_rng().fill_bytes(&mut buffer);
    buffer
}

/// Calls `zeroize::Zeroize::zeroize` on the array. Trusted: every byte is
/// zero afterwards, and the call does not unwind.
#[verifier::external_body]
fn wipe(bytes: &mut [u8; 32])
    ensures
        forall|i: int| 0 <= i < 32 ==> final(bytes)@[i] == 0u8,
    opens_invariants none
    no_unwind
{
    zeroize::Zeroize::zeroize(bytes);
}

/// Calls `zeroize::Zeroize::zeroize` on the vector. Trusted: the bytes are
/// overwritten with zeros and the vector is left empty, and the call does
/// not unwind.
#[verifier::external_body]
pub(crate) fn wipe_bytes(bytes: &mut Vec<u8>)
    ensures
        final(bytes)@.len() == 0,
    opens_invariants none
    no_unwind
{
    zeroize::Zeroize::zeroize(bytes);
}

/// A 256-bit key. It lives in memory only, and its bytes are overwritten
/// with zeros when it is dropped.
pub struct DerivedKey {
    bytes: [u8; 32],
}

impl View for DerivedKey {
    type V = Seq<u8>;

    closed spec fn view(&self) -> Seq<u8> {
        self.bytes@
    }
}

impl Drop for DerivedKey {
    fn drop(&mut self)
        opens_invariants none
        no_unwind
    {
        wipe(&mut self.bytes);
    }
}

/// The key that `from_bytes` makes of `bytes`: its first 32 bytes, followed by
/// zeros where there are fewer.
pub open spec fn key_from_bytes(bytes: Seq<u8>) -> Seq<u8> {
    Seq::new(
        KEY_LEN as nat,
        |i: int|
            if i < bytes.len() {
                bytes[i]
            } else {
                0u8
            },
    )
}

impl DerivedKey {
    /// Every key is 32 bytes long.
    pub proof fn lemma_len(&self)
        ensures
            self@.len() == KEY_LEN,
    {
    }

    /// The bytes of the key, for the cipher.
    pub(crate) fn as_bytes(&self) -> (bytes: &[u8])
        ensures
            bytes@ == self@,
    {
        self.bytes.as_slice()
    }

    /// A key from raw bytes: the first 32 are taken, and a shorter input is
    /// filled up with zeros. The bytes handed in are wiped.
    pub fn from_bytes(bytes: Vec<u8>) -> (key: DerivedKey)
        ensures
            key@ == key_from_bytes(bytes@),
    {
        let mut bytes = bytes;
        let ghost given = bytes@;
        let mut key_bytes = [0u8; 32];
        let len = if bytes.len() < KEY_LEN {
            bytes.len()
        } else {
            KEY_LEN
        };
        let mut i: usize = 0;
        while i < len
            invariant
                i <= len <= KEY_LEN,
                len <= bytes@.len(),
                forall|j: int| 0 <= j < i ==> key_bytes@[j] == bytes@[j],
                forall|j: int| i <= j < KEY_LEN ==> key_bytes@[j] == 0u8,
            decreases len - i,
        {
            key_bytes[i] = bytes[i];
            i += 1;
        }
        assert(key_bytes@ =~= key_from_bytes(given));
        wipe_bytes(&mut bytes);
        DerivedKey { bytes: key_bytes }
    }

    /// A copy of the key's bytes. Its owner is to wipe it after use.
    pub fn to_bytes(&self) -> (bytes: Vec<u8>)
        ensures
            bytes@ == self@,
    {
        slice_to_vec(self.bytes.as_slice())
    }
}

/// A sealed payload: the nonce it was sealed under, and the ciphertext with
/// its authentication tag.
pub struct EncryptedData {
    pub nonce: Vec<u8>,
    pub ciphertext: Vec<u8>,
}

/// The bytes that `derive_key` derives from a password and a salt.
pub open spec fn derived_key_bytes(password: Seq<char>, salt: Seq<u8>) -> Seq<u8> {
    argon2id(
        vstd::utf8::encode_utf8(password),
        salt,
        ARGON2_MEMORY_KB,
        ARGON2_ITERATIONS,
        ARGON2_PARALLELISM,
        KEY_LEN as nat,
    )
}

/// The passwords and salts from which a key can be derived.
pub open spec fn key_derivable(password: Seq<char>, salt: Seq<u8>) -> bool {
    &&& vstd::utf8::encode_utf8(password).len() <= MAX_KDF_INPUT_LEN
    &&& MIN_SALT_LEN <= salt.len() <= MAX_KDF_INPUT_LEN
}

/// What `decrypt` makes of an envelope: the plaintext, or `None` where the
/// nonce has the wrong length or the cipher rejects the ciphertext.
pub open spec fn opened(nonce: Seq<u8>, ciphertext: Seq<u8>, key: Seq<u8>) -> Option<Seq<u8>> {
    if nonce.len() == NONCE_LEN {
        aes256_gcm_open(key, nonce, ciphertext)
    } else {
        None
    }
}

/// The stored form of an envelope: the nonce, then the ciphertext.
pub open spec fn blob_of(nonce: Seq<u8>, ciphertext: Seq<u8>) -> Seq<u8> {
    nonce + ciphertext
}

/// The stored form of `plaintext` sealed under `key`: a nonce of 12 bytes,
/// then the ciphertext of the plaintext under the key and that nonce, 28
/// bytes more than the plaintext in all.
pub open spec fn sealed_blob(blob: Seq<u8>, key: Seq<u8>, plaintext: Seq<u8>) -> bool {
    &&& blob.len() == plaintext.len() + NONCE_LEN + TAG_LEN
    &&& blob == blob_of(
        blob.subrange(0, NONCE_LEN as int),
        aes256_gcm_seal(key, blob.subrange(0, NONCE_LEN as int), plaintext),
    )
}

impl EncryptedData {
    /// The stored form of the envelope: the 12 bytes of the nonce, then the
    /// ciphertext.
    pub fn to_blob(&self) -> (blob: Vec<u8>)
        ensures
            blob@ == blob_of(self.nonce@, self.ciphertext@),
    {
        let mut blob: Vec<u8> = Vec::new();
        blob.extend_from_slice(self.nonce.as_slice());
        blob.extend_from_slice(self.ciphertext.as_slice());
        blob
    }

    /// Splits a stored blob into nonce and ciphertext. A blob shorter than
    /// one nonce is malformed.
    pub fn from_blob(blob: &[u8]) -> (r: Option<EncryptedData>)
        ensures
            r is Some <==> blob@.len() >= NONCE_LEN,
            r matches Some(e) ==> {
                &&& e.nonce@ == blob@.subrange(0, NONCE_LEN as int)
                &&& e.ciphertext@ == blob@.subrange(NONCE_LEN as int, blob@.len() as int)
                &&& blob_of(e.nonce@, e.ciphertext@) == blob@
            },
    {
        if blob.len() < NONCE_LEN {
            return None;
        }
        let nonce = slice_to_vec(slice_subrange(blob, 0, NONCE_LEN));
        let ciphertext = slice_to_vec(slice_subrange(blob, NONCE_LEN, blob.len()));
        assert(nonce@ + ciphertext@ =~= blob@);
        Some(EncryptedData { nonce, ciphertext })
    }
}

/// A fresh random salt of 32 bytes. Called once for a vault, when it is
/// initialised.
pub fn generate_salt() -> (salt: Vec<u8>)
    ensures
        salt@.len() == SALT_LEN,
{
    random_bytes(SALT_LEN)
}

/// Derives the key of a password and a salt with Argon2id (64 MiB, three
/// passes, four lanes, 32 bytes out). The same password and salt give the
/// same key. The derivation fails, with `Encryption`, exactly when the salt
/// is shorter than 8 bytes or an input is longer than 2^32 - 1 bytes.
pub fn derive_key(password: &str, salt: &[u8]) -> (r: Result<DerivedKey, Error>)
    ensures
        match r {
            Ok(key) => key_derivable(password@, salt@) && key@ == derived_key_bytes(
                password@,
                salt@,
            ),
            Err(e) => e is Encryption && !key_derivable(password@, salt@),
        },
{
    let hashed = argon2id_hash(
        password.as_bytes(),
        salt,
        ARGON2_MEMORY_KB,
        ARGON2_ITERATIONS,
        ARGON2_PARALLELISM,
        KEY_LEN,
    );
    match hashed {
        Ok(bytes) => {
            let key = DerivedKey::from_bytes(bytes);
            assert(key@ =~= derived_key_bytes(password@, salt@));
            Ok(key)
        },
        Err(text) => Err(Error::Encryption(text)),
    }
}

/// Seals `plaintext` under `key` and the given nonce with AES-256-GCM. A
/// nonce must never serve twice under one key: `encrypt` draws a fresh one.
/// Sealing fails, with `Encryption`, exactly when the nonce is not 12 bytes
/// long or the plaintext is longer than 2^36 bytes.
pub fn encrypt_with_nonce(plaintext: &[u8], key: &DerivedKey, nonce: Vec<u8>) -> (r: Result<
    EncryptedData,
    Error,
>)
    ensures
        match r {
            Ok(sealed) => {
                &&& nonce@.len() == NONCE_LEN
                &&& plaintext@.len() <= MAX_PLAINTEXT_LEN
                &&& sealed.nonce@ == nonce@
                &&& sealed.ciphertext@ == aes256_gcm_seal(key@, nonce@, plaintext@)
                &&& sealed.ciphertext@.len() == plaintext@.len() + TAG_LEN
                &&& opened(sealed.nonce@, sealed.ciphertext@, key@) == Some(plaintext@)
            },
            Err(e) => e is Encryption && (nonce@.len() != NONCE_LEN || plaintext@.len()
                > MAX_PLAINTEXT_LEN),
        },
{
    if nonce.len() != NONCE_LEN {
        return Err(Error::Encryption(String::from_str("invalid nonce length")));
    }
    match aes256_gcm_encrypt(key.as_bytes(), nonce.as_slice(), plaintext) {
        Ok(ciphertext) => Ok(EncryptedData { nonce, ciphertext }),
        Err(text) => Err(Error::Encryption(text)),
    }
}

/// Seals `plaintext` under `key` with AES-256-GCM and a fresh random nonce of
/// 12 bytes. Sealing fails, with `Encryption`, exactly when the plaintext is
/// longer than 2^36 bytes. What comes back opens, under the same key, to the
/// plaintext.
pub fn encrypt(plaintext: &[u8], key: &DerivedKey) -> (r: Result<EncryptedData, Error>)
    ensures
        match r {
            Ok(sealed) => {
                &&& plaintext@.len() <= MAX_PLAINTEXT_LEN
                &&& sealed.nonce@.len() == NONCE_LEN
                &&& sealed.ciphertext@ == aes256_gcm_seal(key@, sealed.nonce@, plaintext@)
                &&& sealed.ciphertext@.len() == plaintext@.len() + TAG_LEN
                &&& opened(sealed.nonce@, sealed.ciphertext@, key@) == Some(plaintext@)
            },
            Err(e) => e is Encryption && plaintext@.len() > MAX_PLAINTEXT_LEN,
        },
{
    encrypt_with_nonce(plaintext, key, random_bytes(NONCE_LEN))
}

/// Opens an envelope under `key`. Opening fails, with `Decryption`, when the
/// nonce is not 12 bytes long or the cipher rejects the ciphertext: a wrong
/// key and a damaged ciphertext cannot be told apart.
pub fn decrypt(encrypted: &EncryptedData, key: &DerivedKey) -> (r: Result<Vec<u8>, Error>)
    ensures
        match r {
            Ok(plaintext) => opened(encrypted.nonce@, encrypted.ciphertext@, key@) == Some(
                plaintext@,
            ),
            Err(e) => e is Decryption && opened(encrypted.nonce@, encrypted.ciphertext@, key@)
                is None,
        },
{
    if encrypted.nonce.len() != NONCE_LEN {
        return Err(Error::Decryption(String::from_str("invalid nonce length")));
    }
    match aes256_gcm_decrypt(
        key.as_bytes(),
        encrypted.nonce.as_slice(),
        encrypted.ciphertext.as_slice(),
    ) {
        Ok(plaintext) => Ok(plaintext),
        Err(text) => Err(Error::Decryption(text)),
    }
}

} // verus!
