//! Decryption of cookie values that Chromium encrypted at rest: AES-128-CBC
//! with PKCS#7 padding on Unix-like systems, AES-256-GCM on Windows, and the
//! PBKDF2 derivation of the CBC key from a password.
use aes::cipher::block_padding::Pkcs7;
use aes::cipher::{BlockDecryptMut, BlockEncryptMut, KeyIvInit};
use aes_gcm::aead::Aead;
use aes_gcm::{Aes256Gcm, KeyInit, Nonce};
use pbkdf2::password_hash::{PasswordHasher, SaltString};
use pbkdf2::{Algorithm, Params, Pbkdf2};
use vstd::prelude::*;
use vstd::utf8::*;

verus! {

/// Error returned when a value cannot be decrypted.
#[derive(Debug, Clone, Copy, PartialEq, Eq, Structural)]
pub enum DecryptError {
    /// The key or the input has a length the cipher does not accept, or the
    /// padding is malformed.
    InvalidInputLength,
    /// The input did not authenticate.
    InvalidInput,
    /// The decrypted bytes are not valid UTF-8.
    InvalidUtf8,
}

/// Key length of AES-128, in bytes.
pub const AES128_KEY_LEN: usize = 16;

/// Key length of AES-256, in bytes.
pub const AES256_KEY_LEN: usize = 32;

/// Size of the AES-GCM nonce, in bytes.
pub const AEAD_NONCE_SIZE: usize = 12;

/// Length of the CBC key derived from a password, in bytes.
pub const DERIVED_KEY_LEN: usize = 16;

/// What AES-128-CBC decryption with PKCS#7 unpadding gives for `data` under
/// `key` and `iv`; `None` where the input length or the padding is invalid.
pub uninterp spec fn aes128_cbc_decrypt_of(key: Seq<u8>, iv: Seq<u8>, data: Seq<u8>) -> Option<Seq<u8>>;

/// What AES-128-CBC encryption with PKCS#7 padding gives for `plain` under
/// `key` and `iv`.
pub uninterp spec fn aes128_cbc_encrypt_of(key: Seq<u8>, iv: Seq<u8>, plain: Seq<u8>) -> Seq<u8>;

/// What AES-256-GCM decryption of `ciphertext` (tag included) under `key` and
/// `nonce` gives; `None` where it does not authenticate.
pub uninterp spec fn aes256_gcm_decrypt_of(key: Seq<u8>, nonce: Seq<u8>, ciphertext: Seq<u8>) -> Option<Seq<u8>>;

/// What AES-256-GCM encryption of `plain` under `key` and `nonce` gives,
/// without associated data: the ciphertext followed by its 16-byte tag.
pub uninterp spec fn aes256_gcm_encrypt_of(key: Seq<u8>, nonce: Seq<u8>, plain: Seq<u8>) -> Seq<u8>;

/// Size of the AES-GCM authentication tag, in bytes.
pub const AEAD_TAG_SIZE: usize = 16;

/// Whether `data` is a genuine AES-GCM encryption of `plain` whose 16-byte
/// tag was replaced by another: same ciphertext, different tag.
pub open spec fn is_tag_tampered(key: Seq<u8>, nonce: Seq<u8>, plain: Seq<u8>, data: Seq<u8>) -> bool {
    let genuine = aes256_gcm_encrypt_of(key, nonce, plain);
    let body = data.len() - AEAD_TAG_SIZE;
    &&& data.len() >= AEAD_TAG_SIZE
    &&& genuine.len() == data.len()
    &&& genuine.subrange(0, body) == data.subrange(0, body)
    &&& genuine.subrange(body, data.len() as int) != data.subrange(body, data.len() as int)
}

/// The PBKDF2-HMAC-SHA1 key of `output_len` bytes derived from `password`
/// with `salt` and `rounds` iterations; `None` where the hasher refuses the
/// parameters.
pub uninterp spec fn pbkdf2_sha1_of(password: Seq<u8>, salt: Seq<u8>, rounds: u32, output_len: nat) -> Option<Seq<u8>>;

pub open spec fn opt_bytes_view(v: Option<Vec<u8>>) -> Option<Seq<u8>> {
    match v {
        Some(v) => Some(v@),
        None => None,
    }
}

pub open spec fn result_view<E>(r: Result<String, E>) -> Result<Seq<char>, E> {
    match r {
        Ok(s) => Ok(s@),
        Err(e) => Err(e),
    }
}

/// Relies on `cbc::Decryptor<aes::Aes128>` with
/// `decrypt_padded_vec_mut::<Pkcs7>`: the unpadded plaintext, or an error
/// where the input is not a whole, non-zero number of 16-byte blocks or the
/// padding is malformed. PKCS#7 removes one to sixteen bytes.
#[verifier::external_body]
fn aes128_cbc_decrypt(key: &[u8], iv: &[u8], data: &[u8]) -> (r: Option<Vec<u8>>)
    requires
        key@.len() == AES128_KEY_LEN,
        iv@.len() == 16,
    ensures
        opt_bytes_view(r) == aes128_cbc_decrypt_of(key@, iv@, data@),
        data@.len() % 16 != 0 ==> r is None,
        data@.len() == 0 ==> r is None,
        r matches Some(p) ==> data@.len() - 16 <= p@.len() < data@.len(),
{
    let dec = cbc::Decryptor::<aes::Aes128>::new_from_slices(key, iv).ok()?;
    dec.decrypt_padded_vec_mut::<Pkcs7>(data).ok()
}

/// Relies on `cbc::Encryptor<aes::Aes128>` with
/// `encrypt_padded_vec_mut::<Pkcs7>`, which CBC decryption with the same key
/// and IV inverts.
#[verifier::external_body]
fn aes128_cbc_encrypt(key: &[u8], iv: &[u8], plain: &[u8]) -> (r: Vec<u8>)
    requires
        key@.len() == AES128_KEY_LEN,
        iv@.len() == 16,
    ensures
        r@ == aes128_cbc_encrypt_of(key@, iv@, plain@),
        aes128_cbc_decrypt_of(key@, iv@, r@) == Some(plain@),
{
    let enc = cbc::Encryptor::<aes::Aes128>::new_from_slices(key, iv).expect("key and IV are 16 bytes");
    enc.encrypt_padded_vec_mut::<Pkcs7>(plain)
}

/// Relies on `aes_gcm::Aes256Gcm::decrypt` (no associated data): the input
/// is a ciphertext followed by a 16-byte tag; the tag expected for that
/// ciphertext is computed and compared with the given one, and only on a
/// match is the ciphertext decrypted, to as many bytes. So a genuine
/// encryption whose tag was changed is refused.
#[verifier::external_body]
fn aes256_gcm_decrypt(key: &[u8], nonce: &[u8], ciphertext: &[u8]) -> (r: Option<Vec<u8>>)
    requires
        key@.len() == AES256_KEY_LEN,
        nonce@.len() == AEAD_NONCE_SIZE,
    ensures
        opt_bytes_view(r) == aes256_gcm_decrypt_of(key@, nonce@, ciphertext@),
        ciphertext@.len() < AEAD_TAG_SIZE ==> r is None,
        r matches Some(p) ==> p@.len() == ciphertext@.len() - AEAD_TAG_SIZE,
        forall|plain: Seq<u8>|
            ciphertext@.len() >= AEAD_TAG_SIZE && (#[trigger] aes256_gcm_encrypt_of(key@, nonce@, plain)).len()
                == ciphertext@.len() && aes256_gcm_encrypt_of(key@, nonce@, plain).subrange(
                0,
                ciphertext@.len() - AEAD_TAG_SIZE,
            ) == ciphertext@.subrange(0, ciphertext@.len() - AEAD_TAG_SIZE) && aes256_gcm_encrypt_of(
                key@,
                nonce@,
                plain,
            ).subrange(ciphertext@.len() - AEAD_TAG_SIZE, ciphertext@.len() as int) != ciphertext@.subrange(
                ciphertext@.len() - AEAD_TAG_SIZE,
                ciphertext@.len() as int,
            ) ==> r is None,
{
    let cipher = Aes256Gcm::new_from_slice(key).ok()?;
    cipher.decrypt(Nonce::from_slice(nonce), ciphertext).ok()
}

/// Relies on `pbkdf2::Pbkdf2::hash_password_customized` with the PBKDF2-SHA1
/// algorithm: the raw hash output. A salt under 3 bytes encodes to under the
/// 4 Base64 characters a `Salt` needs and makes `SaltString::as_salt` panic;
/// one of up to 48 bytes (64 characters) and an output of 10 to 64 bytes are
/// accepted, and the output then has the length asked for.
#[verifier::external_body]
fn pbkdf2_sha1(password: &[u8], salt: &[u8], rounds: u32, output_len: usize) -> (r: Option<Vec<u8>>)
    requires
        salt@.len() >= 3,
    ensures
        opt_bytes_view(r) == pbkdf2_sha1_of(password@, salt@, rounds, output_len as nat),
        salt@.len() <= 48 && 10 <= output_len <= 64 ==> r is Some && r->Some_0@.len() == output_len,
{
    let salt = SaltString::encode_b64(salt).ok()?;
    let params = Params { rounds, output_length: output_len };
    let hash = Pbkdf2
        .hash_password_customized(password, Some(Algorithm::Pbkdf2Sha1.ident()), None, params, &salt)
        .ok()?;
    Some(hash.hash?.as_bytes().to_vec())
}

/// Relies on `String::from_utf8`: the string where the bytes are valid
/// UTF-8, an error otherwise.
#[verifier::external_body]
pub(crate) fn string_from_utf8(bytes: Vec<u8>) -> (r: Option<String>)
    ensures
        r is Some <==> valid_utf8(bytes@),
        r is Some ==> r->Some_0@ == decode_utf8(bytes@),
{
    String::from_utf8(bytes).ok()
}

/// The text that the bytes `p` hold, or the error for invalid UTF-8.
pub open spec fn utf8_text(p: Seq<u8>) -> Result<Seq<char>, DecryptError> {
    if valid_utf8(p) {
        Ok(decode_utf8(p))
    } else {
        Err(DecryptError::InvalidUtf8)
    }
}

/// Chrome's CBC initialization vector: sixteen spaces.
pub open spec fn chrome_iv() -> Seq<u8> {
    Seq::new(16, |_i: int| 32u8)
}

/// The result of decrypting a Unix-style (AES-128-CBC) value.
pub open spec fn cbc_value_spec(key: Seq<u8>, data: Seq<u8>) -> Result<Seq<char>, DecryptError> {
    if key.len() != AES128_KEY_LEN {
        Err(DecryptError::InvalidInputLength)
    } else {
        match aes128_cbc_decrypt_of(key, chrome_iv(), data) {
            None => Err(DecryptError::InvalidInputLength),
            Some(p) => utf8_text(p),
        }
    }
}

/// The result of decrypting a Windows-style (AES-256-GCM) value: a 12-byte
/// nonce followed by the authenticated ciphertext.
pub open spec fn gcm_value_spec(key: Seq<u8>, data: Seq<u8>) -> Result<Seq<char>, DecryptError> {
    if key.len() != AES256_KEY_LEN || data.len() < AEAD_NONCE_SIZE {
        Err(DecryptError::InvalidInputLength)
    } else {
        match aes256_gcm_decrypt_of(
            key,
            data.subrange(0, AEAD_NONCE_SIZE as int),
            data.subrange(AEAD_NONCE_SIZE as int, data.len() as int),
        ) {
            None => Err(DecryptError::InvalidInput),
            Some(p) => utf8_text(p),
        }
    }
}

/// A Windows-style value decrypts only where its tag authenticates it: any
/// text it yields is exactly what AES-256-GCM accepted.
pub proof fn lemma_gcm_only_authenticated(key: Seq<u8>, data: Seq<u8>)
    ensures
        gcm_value_spec(key, data) is Ok ==> (aes256_gcm_decrypt_of(
            key,
            data.subrange(0, AEAD_NONCE_SIZE as int),
            data.subrange(AEAD_NONCE_SIZE as int, data.len() as int),
        ) matches Some(p) && valid_utf8(p) && gcm_value_spec(key, data) == Ok::<Seq<char>, DecryptError>(
            decode_utf8(p),
        )),
{
}

fn chrome_iv_bytes() -> (r: Vec<u8>)
    ensures
        r@ == chrome_iv(),
{
    let mut v: Vec<u8> = Vec::new();
    while v.len() < 16
        invariant
            v@.len() <= 16,
            forall|i: int| 0 <= i < v@.len() ==> v@[i] == 32u8,
        decreases 16 - v@.len(),
    {
        v.push(32u8);
    }
    assert(v@ =~= chrome_iv());
    v
}

fn decode_text(p: Vec<u8>) -> (r: Result<String, DecryptError>)
    ensures
        result_view(r) == utf8_text(p@),
{
    match string_from_utf8(p) {
        Some(s) => Ok(s),
        None => Err(DecryptError::InvalidUtf8),
    }
}

/// Decrypt a value encrypted by Chrome on Unix platforms (macOS included)
/// with AES-128-CBC, PKCS#7 padding and an IV of sixteen spaces.
pub fn decrypt_value(key: &[u8], encrypted_value: &[u8]) -> (r: Result<String, DecryptError>)
    ensures
        result_view(r) == cbc_value_spec(key@, encrypted_value@),
        encrypted_value@.len() % 16 != 0 ==> r == Err::<String, DecryptError>(DecryptError::InvalidInputLength),
{
    if key.len() != AES128_KEY_LEN {
        return Err(DecryptError::InvalidInputLength);
    }
    let iv = chrome_iv_bytes();
    match aes128_cbc_decrypt(key, iv.as_slice(), encrypted_value) {
        None => Err(DecryptError::InvalidInputLength),
        Some(p) => decode_text(p),
    }
}

/// Encrypt `plain` the way Chrome does on Unix platforms. Decrypting the
/// result with the same key gives `plain` back.
pub fn encrypt_value(key: &[u8], plain: &str) -> (r: Vec<u8>)
    requires
        key@.len() == AES128_KEY_LEN,
    ensures
        r@ == aes128_cbc_encrypt_of(key@, chrome_iv(), encode_utf8(plain@)),
        cbc_value_spec(key@, r@) == Ok::<Seq<char>, DecryptError>(plain@),
{
    proof {
        encode_utf8_valid_utf8(plain@);
        encode_utf8_decode_utf8(plain@);
    }
    let iv = chrome_iv_bytes();
    aes128_cbc_encrypt(key, iv.as_slice(), plain.as_bytes())
}

/// Decrypt a value encrypted by Chrome on Windows with AES-256-GCM: the first
/// 12 bytes are the nonce, the rest the ciphertext and its tag.
///
/// A value whose ciphertext is a genuine encryption but whose tag was changed
/// is refused with `InvalidInput`: no plaintext comes out of it.
pub fn decrypt_value_gcm(key: &[u8], encrypted_value: &[u8]) -> (r: Result<String, DecryptError>)
    ensures
        result_view(r) == gcm_value_spec(key@, encrypted_value@),
        forall|plain: Seq<u8>|
            key@.len() == AES256_KEY_LEN && encrypted_value@.len() >= AEAD_NONCE_SIZE && #[trigger] is_tag_tampered(
                key@,
                encrypted_value@.subrange(0, AEAD_NONCE_SIZE as int),
                plain,
                encrypted_value@.subrange(AEAD_NONCE_SIZE as int, encrypted_value@.len() as int),
            ) ==> r == Err::<String, DecryptError>(DecryptError::InvalidInput),
{
    if key.len() != AES256_KEY_LEN || encrypted_value.len() < AEAD_NONCE_SIZE {
        return Err(DecryptError::InvalidInputLength);
    }
    let nonce = slice_range(encrypted_value, 0, AEAD_NONCE_SIZE);
    let ciphertext = slice_range(encrypted_value, AEAD_NONCE_SIZE, encrypted_value.len());
    match aes256_gcm_decrypt(key, nonce.as_slice(), ciphertext.as_slice()) {
        None => Err(DecryptError::InvalidInput),
        Some(p) => decode_text(p),
    }
}

/// The bytes `v[from..to]`, copied.
pub(crate) fn slice_range(v: &[u8], from: usize, to: usize) -> (r: Vec<u8>)
    requires
        from <= to <= v@.len(),
    ensures
        r@ == v@.subrange(from as int, to as int),
{
    let mut out: Vec<u8> = Vec::new();
    let mut i = from;
    while i < to
        invariant
            from <= i <= to <= v@.len(),
            out@ == v@.subrange(from as int, i as int),
        decreases to - i,
    {
        out.push(v[i]);
        i = i + 1;
        assert(out@ =~= v@.subrange(from as int, i as int));
    }
    out
}

/// The PBKDF2 salt Chrome uses for its symmetric key.
pub open spec fn symmetric_salt() -> Seq<u8> {
    seq![115u8, 97, 108, 116, 121, 115, 97, 108, 116]
}

fn symmetric_salt_bytes() -> (r: Vec<u8>)
    ensures
        r@ == symmetric_salt(),
{
    let r: Vec<u8> = vec![115u8, 97, 108, 116, 121, 115, 97, 108, 116];
    assert(r@ =~= symmetric_salt());
    r
}

/// Derive the 16-byte AES-128 key from a password with PBKDF2-HMAC-SHA1, the
/// salt `saltysalt` and `rounds` iterations.
pub fn derive_key_from_password(password: &str, rounds: u32) -> (r: Vec<u8>)
    ensures
        pbkdf2_sha1_of(encode_utf8(password@), symmetric_salt(), rounds, DERIVED_KEY_LEN as nat)
            == Some(r@),
        r@.len() == DERIVED_KEY_LEN,
{
    let salt = symmetric_salt_bytes();
    match pbkdf2_sha1(password.as_bytes(), salt.as_slice(), rounds, DERIVED_KEY_LEN) {
        Some(key) => key,
        None => Vec::new(),
    }
}

} // verus!
