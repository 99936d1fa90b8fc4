use base64::Engine;
use vstd::prelude::*;

verus! {

/// The Base58 text of a byte string.
pub uninterp spec fn base58_of(b: Seq<u8>) -> Seq<char>;

/// The bytes that a Base58 text stands for, if it is valid Base58.
pub uninterp spec fn base58_decoded(s: Seq<char>) -> Option<Seq<u8>>;

/// The standard (padded) Base64 text of a byte string.
pub uninterp spec fn base64_of(b: Seq<u8>) -> Seq<char>;

/// The bytes that a standard Base64 text stands for, if it is valid.
pub uninterp spec fn base64_decoded(s: Seq<char>) -> Option<Seq<u8>>;

/// The content of a zstd frame, if the bytes are a valid one.
pub uninterp spec fn zstd_decoded(b: Seq<u8>) -> Option<Seq<u8>>;

/// Relies on `bs58::encode(..).into_string()`: the Base58 text of the bytes.
#[verifier::external_body]
pub(crate) fn base58_encode(b: &[u8]) -> (r: String)
    ensures
        r@ == base58_of(b@),
{
    bs58::encode(b).into_string()
}

/// Relies on `bs58::decode(..).into_vec()`: the decoded bytes, or an error
/// for text that is not Base58.
#[verifier::external_body]
pub(crate) fn base58_decode(s: &str) -> (r: Option<Vec<u8>>)
    ensures
        r matches Some(v) ==> base58_decoded(s@) == Some(v@),
        r is None ==> base58_decoded(s@) is None,
{
    bs58::decode(s).into_vec().ok()
}

/// Relies on `base64::engine::general_purpose::STANDARD.encode`: the padded
/// Base64 text of the bytes.
#[verifier::external_body]
pub(crate) fn base64_encode(b: &[u8]) -> (r: String)
    ensures
        r@ == base64_of(b@),
{
    base64::engine::general_purpose::STANDARD.encode(b)
}

/// Relies on `base64::engine::general_purpose::STANDARD.decode`: the decoded
/// bytes, or an error for text that is not standard Base64.
#[verifier::external_body]
pub(crate) fn base64_decode(s: &str) -> (r: Option<Vec<u8>>)
    ensures
        r matches Some(v) ==> base64_decoded(s@) == Some(v@),
        r is None ==> base64_decoded(s@) is None,
{
    base64::engine::general_purpose::STANDARD.decode(s).ok()
}

/// Relies on `zstd::decode_all`: the decompressed content of a zstd frame,
/// or an error for bytes that are not one.
#[verifier::external_body]
pub(crate) fn zstd_decode(b: &[u8]) -> (r: Option<Vec<u8>>)
    ensures
        r matches Some(v) ==> zstd_decoded(b@) == Some(v@),
        r is None ==> zstd_decoded(b@) is None,
{
    zstd::decode_all(b).ok()
}

} // verus!
