use vstd::prelude::*;
use vstd::string::StringExecFns;

use crate::encoding::{base58_encode, base58_of};
use crate::types::{encoding_name, AccountEncoding, Address, TxSignature};

verus! {

/// The character of a decimal digit.
pub open spec fn digit_char(d: nat) -> char {
    if d == 0 { '0' } else if d == 1 { '1' } else if d == 2 { '2' } else if d == 3 { '3' }
    else if d == 4 { '4' } else if d == 5 { '5' } else if d == 6 { '6' } else if d == 7 { '7' }
    else if d == 8 { '8' } else { '9' }
}

/// The decimal text of a natural number.
pub open spec fn dec(n: nat) -> Seq<char>
    decreases n,
{
    if n < 10 {
        seq![digit_char(n)]
    } else {
        dec(n / 10) + seq![digit_char(n % 10)]
    }
}

fn digit_str(d: u64) -> (r: &'static str)
    requires
        d < 10,
    ensures
        r@ == seq![digit_char(d as nat)],
{
    match d {
        0 => {
            proof {
                reveal_strlit("0");
            }
            "0"
        },
        1 => {
            proof {
                reveal_strlit("1");
            }
            "1"
        },
        2 => {
            proof {
                reveal_strlit("2");
            }
            "2"
        },
        3 => {
            proof {
                reveal_strlit("3");
            }
            "3"
        },
        4 => {
            proof {
                reveal_strlit("4");
            }
            "4"
        },
        5 => {
            proof {
                reveal_strlit("5");
            }
            "5"
        },
        6 => {
            proof {
                reveal_strlit("6");
            }
            "6"
        },
        7 => {
            proof {
                reveal_strlit("7");
            }
            "7"
        },
        8 => {
            proof {
                reveal_strlit("8");
            }
            "8"
        },

        _ => {
            proof {
                reveal_strlit("9");
            }
            "9"
        },
    }
}

/// The decimal text of `n`.
pub fn decimal(n: u64) -> (r: String)
    ensures
        r@ == dec(n as nat),
    decreases n,
{
    if n < 10 {
        String::from_str(digit_str(n))
    } else {
        let mut s = decimal(n / 10);
        s.append(digit_str(n % 10));
        s
    }
}

/// `true` or `false`.
pub open spec fn bool_text(b: bool) -> Seq<char> {
    if b {
        "true"@
    } else {
        "false"@
    }
}

fn bool_str(b: bool) -> (r: &'static str)
    ensures
        r@ == bool_text(b),
{
    if b {
        "true"
    } else {
        "false"
    }
}

/// The Base58 text of an account address.
pub open spec fn address_text(a: Address) -> Seq<char> {
    base58_of(a.bytes@)
}

/// The Base58 text of a transaction signature.
pub open spec fn signature_text(s: TxSignature) -> Seq<char> {
    base58_of(s.bytes@)
}

fn address_string(a: &Address) -> (r: String)
    ensures
        r@ == address_text(*a),
{
    base58_encode(a.bytes.as_slice())
}

/// `getLatestBlockhash` request.
pub open spec fn blockhash_text() -> Seq<char> {
    "{\"jsonrpc\":\"2.0\",\"id\":1,\"method\":\"getLatestBlockhash\",\"params\":[{\"commitment\":\"processed\"}]}"@
}

/// Creates the JSON payload of a `getLatestBlockhash` request.
pub fn blockhash() -> (r: String)
    ensures
        r@ == blockhash_text(),
{
    String::from_str(
        "{\"jsonrpc\":\"2.0\",\"id\":1,\"method\":\"getLatestBlockhash\",\"params\":[{\"commitment\":\"processed\"}]}",
    )
}

pub open spec fn account_subscription_text(pubkey: Address, encoding: AccountEncoding, id: u64) -> Seq<char> {
    "{\"jsonrpc\":\"2.0\",\"id\":"@ + dec(id as nat) + ",\"method\":\"accountSubscribe\",\"params\":[\""@
        + address_text(pubkey) + "\",{\"encoding\":\""@ + encoding_name(encoding)
        + "\",\"commitment\":\"processed\"}]}"@
}

/// Creates the JSON payload of an `accountSubscribe` request.
pub fn account_subscription(pubkey: &Address, encoding: AccountEncoding, id: u64) -> (r: String)
    ensures
        r@ == account_subscription_text(*pubkey, encoding, id),
{
    let mut s = String::from_str("{\"jsonrpc\":\"2.0\",\"id\":");
    s.append(decimal(id).as_str());
    s.append(",\"method\":\"accountSubscribe\",\"params\":[\"");
    s.append(address_string(pubkey).as_str());
    s.append("\",{\"encoding\":\"");
    s.append(encoding.as_str());
    s.append("\",\"commitment\":\"processed\"}]}");
    s
}

pub open spec fn signature_status_text(signature: TxSignature) -> Seq<char> {
    "{\"jsonrpc\":\"2.0\",\"id\":1,\"method\":\"getSignatureStatuses\",\"params\":[[\""@
        + signature_text(signature) + "\"]]}"@
}

/// Creates the JSON payload of a `getSignatureStatuses` request for the
/// signature of a transaction.
pub fn signature_status(signature: &TxSignature) -> (r: String)
    ensures
        r@ == signature_status_text(*signature),
{
    let mut s = String::from_str(
        "{\"jsonrpc\":\"2.0\",\"id\":1,\"method\":\"getSignatureStatuses\",\"params\":[[\"",
    );
    s.append(base58_encode(signature.bytes.as_slice()).as_str());
    s.append("\"]]}");
    s
}

pub open spec fn signature_subscription_text(signature: TxSignature, id: u64) -> Seq<char> {
    "{\"jsonrpc\":\"2.0\",\"id\":"@ + dec(id as nat) + ",\"method\":\"signatureSubscribe\",\"params\":[\""@
        + signature_text(signature) + "\",{\"commitment\":\"processed\"}]}"@
}

/// Creates the JSON payload of a `signatureSubscribe` request.
pub fn signature_subscription(signature: &TxSignature, id: u64) -> (r: String)
    ensures
        r@ == signature_subscription_text(*signature, id),
{
    let mut s = String::from_str("{\"jsonrpc\":\"2.0\",\"id\":");
    s.append(decimal(id).as_str());
    s.append(",\"method\":\"signatureSubscribe\",\"params\":[\"");
    s.append(base58_encode(signature.bytes.as_slice()).as_str());
    s.append("\",{\"commitment\":\"processed\"}]}");
    s
}

pub open spec fn transaction_text(encoded: Seq<char>, check: bool) -> Seq<char> {
    "{\"jsonrpc\":\"2.0\",\"id\":1,\"method\":\"sendTransaction\",\"params\":[\""@ + encoded
        + "\",{\"skipPreflight\":"@ + bool_text(!check)
        + ",\"encoding\":\"base64\", \"preflightCommitment\": \"processed\"}]}"@
}

/// Creates the JSON payload of a `sendTransaction` request for a wire
/// transaction already in Base64; preflight checks are skipped unless
/// `check` is set.
pub fn transaction(encoded: &str, check: bool) -> (r: String)
    ensures
        r@ == transaction_text(encoded@, check),
{
    let mut s = String::from_str(
        "{\"jsonrpc\":\"2.0\",\"id\":1,\"method\":\"sendTransaction\",\"params\":[\"",
    );
    s.append(encoded);
    s.append("\",{\"skipPreflight\":");
    s.append(bool_str(!check));
    s.append(",\"encoding\":\"base64\", \"preflightCommitment\": \"processed\"}]}");
    s
}

pub open spec fn get_account_info_text(pubkey: Address, encoding: AccountEncoding, id: u64) -> Seq<char> {
    "{\"jsonrpc\":\"2.0\",\"id\":"@ + dec(id as nat) + ",\"method\":\"getAccountInfo\",\"params\":[\""@
        + address_text(pubkey) + "\",{\"encoding\":\""@ + encoding_name(encoding) + "\"}]}"@
}

/// Creates the JSON payload of a `getAccountInfo` request.
pub fn get_account_info(pubkey: &Address, encoding: AccountEncoding, id: u64) -> (r: String)
    ensures
        r@ == get_account_info_text(*pubkey, encoding, id),
{
    let mut s = String::from_str("{\"jsonrpc\":\"2.0\",\"id\":");
    s.append(decimal(id).as_str());
    s.append(",\"method\":\"getAccountInfo\",\"params\":[\"");
    s.append(address_string(pubkey).as_str());
    s.append("\",{\"encoding\":\"");
    s.append(encoding.as_str());
    s.append("\"}]}");
    s
}

/// The addresses as a JSON list of strings: `["a", "b"]`.
pub open spec fn address_list_text(pubkeys: Seq<Address>) -> Seq<char>
    decreases pubkeys.len(),
{
    if pubkeys.len() == 0 {
        "[]"@
    } else {
        address_items_text(pubkeys) + "]"@
    }
}

/// `["a", "b"` for a non-empty list (without the closing bracket).
pub open spec fn address_items_text(pubkeys: Seq<Address>) -> Seq<char>
    decreases pubkeys.len(),
{
    if pubkeys.len() <= 1 {
        "[\""@ + address_text(pubkeys[0]) + "\""@
    } else {
        address_items_text(pubkeys.drop_last()) + ", \""@ + address_text(pubkeys.last()) + "\""@
    }
}

fn address_list(pubkeys: &Vec<Address>) -> (r: String)
    ensures
        r@ == address_list_text(pubkeys@),
{
    let n = pubkeys.len();
    if n == 0 {
        return String::from_str("[]");
    }
    let mut s = String::from_str("[\"");
    s.append(address_string(&pubkeys[0]).as_str());
    s.append("\"");
    let mut i: usize = 1;
    while i < n
        invariant
            n == pubkeys@.len(),
            1 <= i <= n,
            s@ == address_items_text(pubkeys@.subrange(0, i as int)),
        decreases n - i,
    {
        proof {
            let p = pubkeys@.subrange(0, i as int + 1);
            assert(p.drop_last() =~= pubkeys@.subrange(0, i as int));
            assert(p.last() == pubkeys@[i as int]);
        }
        s.append(", \"");
        s.append(address_string(&pubkeys[i]).as_str());
        s.append("\"");
        i = i + 1;
    }
    proof {
        assert(pubkeys@.subrange(0, 1)[0] == pubkeys@[0]);
        assert(pubkeys@.subrange(0, n as int) =~= pubkeys@);
    }
    s.append("]");
    s
}

pub open spec fn get_multiple_accounts_text(pubkeys: Seq<Address>, encoding: AccountEncoding, id: u64) -> Seq<char> {
    "{\"jsonrpc\":\"2.0\",\"id\":"@ + dec(id as nat) + ",\"method\":\"getMultipleAccounts\",\"params\":["@
        + address_list_text(pubkeys) + ",{\"encoding\":\""@ + encoding_name(encoding) + "\"}]}"@
}

/// Creates the JSON payload of a `getMultipleAccounts` request.
pub fn get_multiple_accounts(pubkeys: &Vec<Address>, encoding: AccountEncoding, id: u64) -> (r: String)
    ensures
        r@ == get_multiple_accounts_text(pubkeys@, encoding, id),
{
    let mut s = String::from_str("{\"jsonrpc\":\"2.0\",\"id\":");
    s.append(decimal(id).as_str());
    s.append(",\"method\":\"getMultipleAccounts\",\"params\":[");
    s.append(address_list(pubkeys).as_str());
    s.append(",{\"encoding\":\"");
    s.append(encoding.as_str());
    s.append("\"}]}");
    s
}

pub open spec fn get_balance_text(pubkey: Address, id: u64) -> Seq<char> {
    "{\"jsonrpc\":\"2.0\",\"id\":"@ + dec(id as nat) + ",\"method\":\"getBalance\",\"params\":[\""@
        + address_text(pubkey) + "\"]}"@
}

/// Creates the JSON payload of a `getBalance` request.
pub fn get_balance(pubkey: &Address, id: u64) -> (r: String)
    ensures
        r@ == get_balance_text(*pubkey, id),
{
    let mut s = String::from_str("{\"jsonrpc\":\"2.0\",\"id\":");
    s.append(decimal(id).as_str());
    s.append(",\"method\":\"getBalance\",\"params\":[\"");
    s.append(address_string(pubkey).as_str());
    s.append("\"]}");
    s
}

pub open spec fn get_token_account_balance_text(pubkey: Address, id: u64) -> Seq<char> {
    "{\"jsonrpc\":\"2.0\",\"id\":"@ + dec(id as nat) + ",\"method\":\"getTokenAccountBalance\",\"params\":[\""@
        + address_text(pubkey) + "\"]}"@
}

/// Creates the JSON payload of a `getTokenAccountBalance` request.
pub fn get_token_account_balance(pubkey: &Address, id: u64) -> (r: String)
    ensures
        r@ == get_token_account_balance_text(*pubkey, id),
{
    let mut s = String::from_str("{\"jsonrpc\":\"2.0\",\"id\":");
    s.append(decimal(id).as_str());
    s.append(",\"method\":\"getTokenAccountBalance\",\"params\":[\"");
    s.append(address_string(pubkey).as_str());
    s.append("\"]}");
    s
}

} // verus!
