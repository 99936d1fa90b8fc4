use vstd::prelude::*;
use vstd::string::StringExecFns;

use crate::encoding::{
    base58_decode, base58_decoded, base64_decode, base64_decoded, zstd_decode, zstd_decoded,
};
use crate::types::{encoding_name, AccountEncoding};

verus! {

/// Offset of the request id in the data of a benchmark account (after the
/// 32-byte owner prefix).
pub const ID_OFFSET: usize = 32;

/// Little-endian value of a byte string.
pub open spec fn le_value(b: Seq<u8>) -> nat
    decreases b.len(),
{
    if b.len() == 0 {
        0
    } else {
        (b[0] + 256 * le_value(b.drop_first())) as nat
    }
}

pub open spec fn pow256(k: nat) -> nat
    decreases k,
{
    if k == 0 {
        1
    } else {
        256 * pow256((k - 1) as nat)
    }
}

/// The request id written into account data: the little-endian `u64` that
/// follows the 32-byte prefix, if the data is long enough.
pub open spec fn account_data_id(data: Seq<u8>) -> Option<u64> {
    if data.len() >= ID_OFFSET + 8 {
        Some(le_value(data.subrange(ID_OFFSET as int, ID_OFFSET + 8)) as u64)
    } else {
        None
    }
}

/// The account data carried by a notification, decoded as its encoding says.
pub open spec fn decoded_account_data(data: Seq<char>, encoding: AccountEncoding) -> Option<Seq<u8>> {
    match encoding {
        AccountEncoding::Base58 => base58_decoded(data),
        AccountEncoding::Base64 => base64_decoded(data),
        AccountEncoding::Base64Zstd => match base64_decoded(data) {
            Some(b) => zstd_decoded(b),
            None => None,
        },
    }
}

/// The encoding named by `s`, if any.
pub open spec fn encoding_of_name(s: Seq<char>) -> Option<AccountEncoding> {
    if s == encoding_name(AccountEncoding::Base58) {
        Some(AccountEncoding::Base58)
    } else if s == encoding_name(AccountEncoding::Base64) {
        Some(AccountEncoding::Base64)
    } else if s == encoding_name(AccountEncoding::Base64Zstd) {
        Some(AccountEncoding::Base64Zstd)
    } else {
        None
    }
}

impl AccountEncoding {
    /// The encoding with wire name `s`.
    pub fn from_name(s: &str) -> (r: Option<AccountEncoding>)
        ensures
            r == encoding_of_name(s@),
    {
        let t = String::from_str(s);
        if t == String::from_str("base58") {
            Some(AccountEncoding::Base58)
        } else if t == String::from_str("base64") {
            Some(AccountEncoding::Base64)
        } else if t == String::from_str("base64+zstd") {
            Some(AccountEncoding::Base64Zstd)
        } else {
            None
        }
    }
}

/// Reads the request id that the benchmark program wrote into account data.
pub fn read_request_id(data: &[u8]) -> (r: Option<u64>)
    ensures
        r == account_data_id(data@),
{
    if data.len() < ID_OFFSET + 8 {
        return None;
    }
    let ghost w = data@.subrange(ID_OFFSET as int, ID_OFFSET + 8);
    let mut acc: u64 = 0;
    let mut i: usize = 8;
    assert(w.subrange(8, 8) =~= Seq::<u8>::empty());
    while i > 0
        invariant
            i <= 8,
            data@.len() >= ID_OFFSET + 8,
            w == data@.subrange(ID_OFFSET as int, ID_OFFSET + 8),
            acc == le_value(w.subrange(i as int, 8)),
            acc < pow256((8 - i) as nat),
        decreases i,
    {
        let b = data[ID_OFFSET + i - 1];
        proof {
            let rest = w.subrange(i as int, 8);
            let next = w.subrange(i - 1, 8);
            assert(next.drop_first() =~= rest);
            assert(next[0] == b);
            assert(pow256((8 - i + 1) as nat) == 256 * pow256((8 - i) as nat));
            reveal_with_fuel(pow256, 9);
            assert(pow256(8) == 18446744073709551616);
            lemma_pow_mono((8 - i + 1) as nat, 8);
            assert(b + 256 * acc < 256 * pow256((8 - i) as nat)) by (nonlinear_arith)
                requires
                    acc < pow256((8 - i) as nat),
                    0 <= b < 256,
            ;
        }
        acc = b as u64 + 256 * acc;
        i = i - 1;
    }
    assert(w.subrange(0, 8) =~= w);
    Some(acc)
}

proof fn lemma_pow_mono(a: nat, b: nat)
    requires
        a <= b,
    ensures
        pow256(a) <= pow256(b),
    decreases b - a,
{
    if a < b {
        lemma_pow_mono(a, (b - 1) as nat);
        assert(pow256(b) == 256 * pow256((b - 1) as nat));
    }
}

/// Decodes the data of an account notification and reads the request id
/// written into it.
pub fn account_update_extractor(data: &str, encoding: AccountEncoding) -> (r: Option<u64>)
    ensures
        r == match decoded_account_data(data@, encoding) {
            Some(b) => account_data_id(b),
            None => None,
        },
{
    let decoded = match encoding {
        AccountEncoding::Base58 => base58_decode(data),
        AccountEncoding::Base64 => base64_decode(data),
        AccountEncoding::Base64Zstd => match base64_decode(data) {
            Some(b) => zstd_decode(b.as_slice()),
            None => None,
        },
    };
    match decoded {
        Some(b) => read_request_id(b.as_slice()),
        None => None,
    }
}

/// The latest blockhash from its Base58 text, if that stands for 32 bytes.
pub open spec fn blockhash_of_text(text: Seq<char>) -> Option<Seq<u8>> {
    match base58_decoded(text) {
        Some(b) => if b.len() == 32 {
            Some(b)
        } else {
            None
        },
        None => None,
    }
}

/// Decodes the Base58 text of a blockhash.
pub fn blockhash_extractor(text: &str) -> (r: Option<[u8; 32]>)
    ensures
        r matches Some(h) ==> blockhash_of_text(text@) == Some(h@),
        r is None ==> blockhash_of_text(text@) is None,
{
    let b = match base58_decode(text) {
        Some(b) => b,
        None => return None,
    };
    if b.len() != 32 {
        return None;
    }
    let mut h = [0u8; 32];
    let mut i: usize = 0;
    while i < 32
        invariant
            b@.len() == 32,
            i <= 32,
            forall|k: int| 0 <= k < i ==> h@[k] == b@[k],
        decreases 32 - i,
    {
        h[i] = b[i];
        i = i + 1;
    }
    assert(h@ =~= b@);
    Some(h)
}

} // verus!
