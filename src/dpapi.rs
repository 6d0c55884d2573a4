//! The Windows side of Chromium's key handling that needs no OS call: the
//! key stored in the `Local State` file is Base64 text whose bytes start with
//! a `DPAPI` marker, ahead of the blob that DPAPI unwraps.
use base64ct::{Base64, Encoding};
use vstd::prelude::*;

verus! {

#[verifier::external_type_specification]
#[verifier::external_body]
pub struct ExBase64Error(base64ct::Error);

/// Error returned when DPAPI cannot unwrap a value.
#[derive(Debug, Clone)]
pub enum DecryptDpapiValueError {
    /// The buffer is longer than DPAPI accepts (its length must fit in 32 bits).
    BufferTooLong { buffer: Vec<u8> },
    /// DPAPI refused the buffer.
    UnknownError { message: String },
}

/// Error returned when the key of the `Local State` file cannot be unwrapped.
#[allow(inconsistent_fields)]
#[derive(Debug)]
pub enum DecryptDpapiKeyError {
    /// The key is not valid Base64.
    InvalidKeyFormat { key: String, source: base64ct::Error },
    /// The decoded key does not start with the `DPAPI` marker.
    InvalidKeyPrefix { key: Vec<u8> },
    /// DPAPI could not unwrap the key.
    DecryptError { source: DecryptDpapiValueError },
}

/// The bytes that standard padded Base64 text `s` decodes to; `None` where
/// `s` is not valid Base64.
pub uninterp spec fn base64_decode_of(s: Seq<char>) -> Option<Seq<u8>>;

/// Relies on `base64ct::Base64::decode_vec`: the decoded bytes of standard
/// padded Base64, or an error where the text is not such Base64.
#[verifier::external_body]
fn base64_decode(s: &str) -> (r: Result<Vec<u8>, base64ct::Error>)
    ensures
        r is Ok <==> base64_decode_of(s@) is Some,
        r is Ok ==> base64_decode_of(s@) == Some(r->Ok_0@),
{
    Base64::decode_vec(s)
}

/// The marker `DPAPI` that precedes the wrapped key.
pub open spec fn dpapi_prefix() -> Seq<u8> {
    seq![68u8, 80, 65, 80, 73]
}

pub open spec fn starts_with(b: Seq<u8>, prefix: Seq<u8>) -> bool {
    prefix.len() <= b.len() && b.subrange(0, prefix.len() as int) == prefix
}

/// Where the blob handed to DPAPI starts in the decoded key: right after the
/// marker.
pub open spec fn blob_start() -> int {
    dpapi_prefix().len() as int
}

/// Extract, from the Base64 key of the `Local State` file, the blob that
/// DPAPI unwraps into the AES-256 key.
pub fn encrypted_key_blob(encrypted_key: &str) -> (r: Result<Vec<u8>, DecryptDpapiKeyError>)
    ensures
        match base64_decode_of(encrypted_key@) {
            None => match r {
                Err(DecryptDpapiKeyError::InvalidKeyFormat { key, .. }) => key@ == encrypted_key@,
                _ => false,
            },
            Some(b) => if starts_with(b, dpapi_prefix()) {
                r is Ok && r->Ok_0@ == b.subrange(blob_start(), b.len() as int)
            } else {
                match r {
                    Err(DecryptDpapiKeyError::InvalidKeyPrefix { key }) => key@ == b,
                    _ => false,
                }
            },
        },
{
    let bytes = match base64_decode(encrypted_key) {
        Ok(b) => b,
        Err(source) => {
            return Err(DecryptDpapiKeyError::InvalidKeyFormat { key: encrypted_key.to_owned(), source });
        },
    };
    let prefix: Vec<u8> = vec![68u8, 80, 65, 80, 73];
    assert(prefix@ =~= dpapi_prefix());
    if bytes.len() < prefix.len() {
        return Err(DecryptDpapiKeyError::InvalidKeyPrefix { key: bytes });
    }
    let mut i: usize = 0;
    while i < prefix.len()
        invariant
            prefix@ == dpapi_prefix(),
            base64_decode_of(encrypted_key@) == Some(bytes@),
            prefix@.len() <= bytes@.len(),
            i <= prefix@.len(),
            forall|k: int| 0 <= k < i ==> bytes@[k] == prefix@[k],
        decreases prefix.len() - i,
    {
        if bytes[i] != prefix[i] {
            assert(bytes@.subrange(0, 5)[i as int] != dpapi_prefix()[i as int]);
            return Err(DecryptDpapiKeyError::InvalidKeyPrefix { key: bytes });
        }
        i = i + 1;
    }
    assert(bytes@.subrange(0, 5) =~= dpapi_prefix());
    let len = bytes.len();
    Ok(crate::crypto::slice_range(bytes.as_slice(), prefix.len(), len))
}

/// The length of a buffer handed to DPAPI, which must fit in 32 bits.
pub fn dpapi_buffer_len(buffer: &[u8]) -> (r: Result<u32, DecryptDpapiValueError>)
    ensures
        buffer@.len() <= u32::MAX ==> r == Ok::<u32, DecryptDpapiValueError>(buffer@.len() as u32),
        buffer@.len() > u32::MAX ==> match r {
            Err(DecryptDpapiValueError::BufferTooLong { buffer: b }) => b@ == buffer@,
            _ => false,
        },
{
    if buffer.len() > u32::MAX as usize {
        Err(DecryptDpapiValueError::BufferTooLong { buffer: crate::crypto::slice_range(buffer, 0, buffer.len()) })
    } else {
        Ok(buffer.len() as u32)
    }
}

} // verus!
