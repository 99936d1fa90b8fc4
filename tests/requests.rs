use base64::Engine;
use redline::chain::{address_from_text, derive_pda};
use redline::extractor::{account_update_extractor, blockhash_extractor, read_request_id};
use redline::instruction::Instruction;
use redline::json::{
    blockhash_response, classify_ws_message, has_result, signature_response, value_response,
    WsMessage,
};
use redline::payload::{
    account_subscription, blockhash, decimal, get_account_info, get_balance,
    get_multiple_accounts, get_token_account_balance, signature_status, signature_subscription,
    transaction,
};
use redline::requests::{
    make_builder, program_addresses, BuildError, ExtractorKind, RequestBuilder,
    Signers,
};
use redline::types::{AccountEncoding, AccountSize, Address, BenchMode, TxSignature, WeightedBenchMode};

const ZERO_ADDRESS: &str = "11111111111111111111111111111111";

fn zero() -> Address {
    Address { bytes: [0; 32] }
}

#[test]
fn encoding_names() {
    assert_eq!(AccountEncoding::Base58.as_str(), "base58");
    assert_eq!(AccountEncoding::Base64.as_str(), "base64");
    assert_eq!(AccountEncoding::Base64Zstd.as_str(), "base64+zstd");
    assert_eq!(AccountEncoding::from_name("base64+zstd"), Some(AccountEncoding::Base64Zstd));
    assert_eq!(AccountEncoding::from_name("hex"), None);
}

#[test]
fn account_sizes() {
    assert_eq!(AccountSize::BYTES128.bytes(), 128);
    assert_eq!(AccountSize::BYTES8192.bytes(), 8192);
}

#[test]
fn decimal_text() {
    assert_eq!(decimal(0), "0");
    assert_eq!(decimal(1234567), "1234567");
    assert_eq!(decimal(u64::MAX), "18446744073709551615");
}

#[test]
fn request_payloads() {
    assert_eq!(
        blockhash(),
        r#"{"jsonrpc":"2.0","id":1,"method":"getLatestBlockhash","params":[{"commitment":"processed"}]}"#
    );
    assert_eq!(
        account_subscription(&zero(), AccountEncoding::Base64, 42),
        format!(r#"{{"jsonrpc":"2.0","id":42,"method":"accountSubscribe","params":["{ZERO_ADDRESS}",{{"encoding":"base64","commitment":"processed"}}]}}"#)
    );
    assert_eq!(
        get_account_info(&zero(), AccountEncoding::Base58, 7),
        format!(r#"{{"jsonrpc":"2.0","id":7,"method":"getAccountInfo","params":["{ZERO_ADDRESS}",{{"encoding":"base58"}}]}}"#)
    );
    assert_eq!(
        get_balance(&zero(), 3),
        format!(r#"{{"jsonrpc":"2.0","id":3,"method":"getBalance","params":["{ZERO_ADDRESS}"]}}"#)
    );
    assert_eq!(
        get_token_account_balance(&zero(), 3),
        format!(r#"{{"jsonrpc":"2.0","id":3,"method":"getTokenAccountBalance","params":["{ZERO_ADDRESS}"]}}"#)
    );
    let one = Address { bytes: [1; 32] };
    let one_text = bs58::encode([1u8; 32]).into_string();
    let list = vec![ZERO_ADDRESS.to_string(), one_text.clone()];
    assert_eq!(
        get_multiple_accounts(&vec![zero(), one], AccountEncoding::Base64Zstd, 9),
        format!(r#"{{"jsonrpc":"2.0","id":9,"method":"getMultipleAccounts","params":[{list:?},{{"encoding":"base64+zstd"}}]}}"#)
    );
    assert_eq!(
        get_multiple_accounts(&vec![], AccountEncoding::Base64, 9),
        r#"{"jsonrpc":"2.0","id":9,"method":"getMultipleAccounts","params":[[],{"encoding":"base64"}]}"#
    );
    assert_eq!(
        transaction("AAAA", false),
        r#"{"jsonrpc":"2.0","id":1,"method":"sendTransaction","params":["AAAA",{"skipPreflight":true,"encoding":"base64", "preflightCommitment": "processed"}]}"#
    );
    assert!(transaction("AAAA", true).contains(r#""skipPreflight":false"#));
    let sig = TxSignature { bytes: [0; 64] };
    let sig_text = "1".repeat(64);
    assert_eq!(
        signature_subscription(&sig, 11),
        format!(r#"{{"jsonrpc":"2.0","id":11,"method":"signatureSubscribe","params":["{sig_text}",{{"commitment":"processed"}}]}}"#)
    );
    assert_eq!(
        signature_status(&sig),
        format!(r#"{{"jsonrpc":"2.0","id":1,"method":"getSignatureStatuses","params":[["{sig_text}"]]}}"#)
    );
}

fn account_data(id: u64) -> Vec<u8> {
    let mut d = vec![0xAB; 32];
    d.extend_from_slice(&id.to_le_bytes());
    d.extend_from_slice(&[0; 24]);
    d
}

#[test]
fn request_id_follows_the_owner_prefix() {
    assert_eq!(read_request_id(&account_data(0x0102030405060708)), Some(0x0102030405060708));
    assert_eq!(read_request_id(&[0; 39]), None);
    assert_eq!(read_request_id(&account_data(u64::MAX)), Some(u64::MAX));
}

#[test]
fn account_updates_in_every_encoding() {
    let data = account_data(250);
    let b58 = bs58::encode(&data).into_string();
    let b64 = base64::engine::general_purpose::STANDARD.encode(&data);
    let z = zstd::encode_all(data.as_slice(), 3).unwrap();
    let b64z = base64::engine::general_purpose::STANDARD.encode(&z);
    assert_eq!(account_update_extractor(&b58, AccountEncoding::Base58), Some(250));
    assert_eq!(account_update_extractor(&b64, AccountEncoding::Base64), Some(250));
    assert_eq!(account_update_extractor(&b64z, AccountEncoding::Base64Zstd), Some(250));
    assert_eq!(account_update_extractor("not base64!", AccountEncoding::Base64), None);
    assert_eq!(account_update_extractor(&b64, AccountEncoding::Base64Zstd), None);
    let short = base64::engine::general_purpose::STANDARD.encode([1u8; 8]);
    assert_eq!(account_update_extractor(&short, AccountEncoding::Base64), None);
}

#[test]
fn blockhash_text_decodes_to_32_bytes() {
    let h = [9u8; 32];
    assert_eq!(blockhash_extractor(&bs58::encode(h).into_string()), Some(h));
    assert_eq!(blockhash_extractor("3"), None);
    assert_eq!(blockhash_extractor("0OIl"), None);
    assert_eq!(address_from_text(ZERO_ADDRESS), Some(zero()));
}

#[test]
fn instruction_data() {
    assert_eq!(Instruction::SimpleByteSet { id: 5 }.encode(), vec![3, 0, 0, 0, 5, 0, 0, 0, 0, 0, 0, 0]);
    assert_eq!(Instruction::CommitAccounts { id: 256 }.encode(), vec![0, 0, 0, 0, 0, 1, 0, 0, 0, 0, 0, 0]);
    assert_eq!(Instruction::InitAccount { space: 512, seed: 3, bump: 254 }.encode(), vec![1, 0, 0, 0, 0, 2, 0, 0, 3, 254]);
    assert_eq!(Instruction::Delegate { seed: 9 }.encode(), vec![2, 0, 0, 0, 9]);
    let mut expected = vec![4, 0, 0, 0, 1, 0, 0, 0, 0, 0, 0, 0];
    expected.extend_from_slice(&[7; 32]);
    expected.extend_from_slice(&[10, 0, 0, 0]);
    let ix = Instruction::ExpensiveHashCompute { id: 1, init: Address { bytes: [7; 32] }, iters: 10 };
    assert_eq!(ix.encode(), expected);
    assert_eq!(Instruction::ReadAccountsData { id: 2 }.encode()[0], 7);
}

fn accounts(n: u8) -> Vec<Address> {
    (0..n).map(|i| Address { bytes: [i; 32] }).collect()
}

fn signers() -> Signers {
    Signers::new(vec![solana_keypair::Keypair::new(), solana_keypair::Keypair::new()])
}

fn builder(mode: &BenchMode, n: u8) -> Result<RequestBuilder, BuildError> {
    make_builder(mode, &accounts(n), AccountEncoding::Base64, program_addresses().unwrap(), false)
}

#[test]
fn builder_errors() {
    assert_eq!(builder(&BenchMode::GetBalance, 0).err(), Some(BuildError::NoAccounts));
    assert_eq!(builder(&BenchMode::Mixed(vec![]), 2).err(), Some(BuildError::InvalidMode));
    let zero_weight = BenchMode::Mixed(vec![WeightedBenchMode { mode: BenchMode::GetBalance, weight: 0 }]);
    assert_eq!(builder(&zero_weight, 2).err(), Some(BuildError::InvalidMode));
    assert_eq!(builder(&BenchMode::ReadWrite, 1).err(), Some(BuildError::InvalidMode));
    assert!(builder(&BenchMode::ReadWrite, 2).is_ok());
}

#[test]
fn read_requests_go_round_robin() {
    let b = builder(&BenchMode::GetBalance, 3).unwrap();
    let s = signers();
    for id in 0..6u64 {
        let r = b.build(id, &s, &[0; 32]);
        assert_eq!(r.name, "GetBalance");
        assert_eq!(r.payload, get_balance(&accounts(3)[(id % 3) as usize], id));
        assert!(r.signature.is_none());
        assert_eq!(r.extractor, ExtractorKind::Value);
    }
    let m = builder(&BenchMode::GetMultipleAccounts, 2).unwrap();
    assert_eq!(m.build(4, &s, &[0; 32]).payload, get_multiple_accounts(&accounts(2), AccountEncoding::Base64, 4));
    assert_eq!(m.accounts(), accounts(2));
}

#[test]
fn transactions_are_signed_and_encoded() {
    let s = signers();
    for mode in [
        BenchMode::SimpleByteSet,
        BenchMode::HighCuCost { iters: 10 },
        BenchMode::ReadWrite,
        BenchMode::ReadOnly { accounts_per_transaction: 3 },
        BenchMode::Commit { accounts_per_transaction: 2 },
    ] {
        let b = builder(&mode, 4).unwrap();
        let r = b.build(17, &s, &[5; 32]);
        assert!(r.signature.is_some());
        assert_eq!(r.extractor, ExtractorKind::SignatureResponse);
        assert!(r.payload.starts_with(r#"{"jsonrpc":"2.0","id":1,"method":"sendTransaction","params":[""#));
        assert!(r.payload.contains(r#""skipPreflight":true"#));
    }
    let r = builder(&BenchMode::SimpleByteSet, 1).unwrap().build(1, &s, &[5; 32]);
    assert_eq!(r.name, "SimpleByteSet");
}

#[test]
fn mixed_mode_follows_weights() {
    let mode = BenchMode::Mixed(vec![
        WeightedBenchMode { mode: BenchMode::SimpleByteSet, weight: 3 },
        WeightedBenchMode { mode: BenchMode::GetBalance, weight: 1 },
    ]);
    let b = builder(&mode, 1).unwrap();
    let s = signers();
    let mut tx = 0;
    let mut rd = 0;
    for id in 0..2000u64 {
        let r = b.build(id, &s, &[1; 32]);
        match r.name {
            "SimpleByteSet" => tx += 1,
            "GetBalance" => rd += 1,
            other => panic!("unexpected {other}"),
        }
    }
    assert_eq!(tx + rd, 2000);
    let ratio = tx as f64 / rd as f64;
    assert!(ratio > 2.5 && ratio < 3.6, "ratio {ratio}");
}

#[test]
fn nested_mixed_modes() {
    let inner = BenchMode::Mixed(vec![WeightedBenchMode { mode: BenchMode::GetTokenAccountBalance, weight: 1 }]);
    let mode = BenchMode::Mixed(vec![WeightedBenchMode { mode: inner, weight: 2 }]);
    let r = builder(&mode, 2).unwrap().build(0, &signers(), &[0; 32]);
    assert_eq!(r.name, "GetTokenAccountBalance");
}

#[test]
fn program_addresses_parse() {
    let ids = program_addresses().unwrap();
    assert_eq!(bs58::encode(ids.program.bytes).into_string(), redline::requests::PROGRAM_ID);
    let pda = derive_pda(&zero(), 128, 1, &zero(), &ids.program);
    assert!(pda.is_some());
}

#[test]
fn benchmark_accounts_are_derived_per_seed() {
    let ids = program_addresses().unwrap();
    let base = Address { bytes: [3; 32] };
    let v = redline::chain::benchmark_accounts(&base, 128, 3, &zero(), &ids.program).unwrap();
    assert_eq!(v.len(), 3);
    for (i, a) in v.iter().enumerate() {
        assert_eq!(derive_pda(&base, 128, i as u8 + 1, &zero(), &ids.program).unwrap().0, *a);
    }
    assert_ne!(v[0], v[1]);
    assert!(redline::chain::benchmark_accounts(&base, 128, 0, &zero(), &ids.program).unwrap().is_empty());
}

#[test]
fn prepare_buffer_writes_at_the_index() {
    let mut index = 2usize;
    let mut target = vec![0u8; 8];
    redline::instruction::prepare_buffer(&mut index, &mut target, &[7, 8, 9]);
    assert_eq!(index, 5);
    assert_eq!(target, vec![0, 0, 7, 8, 9, 0, 0, 0]);
}

#[test]
fn first_signer_address() {
    let k = solana_keypair::Keypair::new();
    let expected = solana_signer::Signer::pubkey(&k).to_bytes();
    let s = Signers::new(vec![k]);
    assert_eq!(s.first_address(), Some(Address { bytes: expected }));
    assert_eq!(Signers::new(vec![]).first_address(), None);
}

#[test]
fn transfer_request_is_a_transaction_payload() {
    let vault = redline::requests::SignerKey::new(&solana_keypair::Keypair::new());
    let p = redline::chain::transfer_request(&vault.secret, &zero(), &[4; 32]);
    let q = redline::chain::transfer_request(&vault.secret, &Address { bytes: [1; 32] }, &[4; 32]);
    assert_ne!(p, q);
    assert!(p.starts_with(r#"{"jsonrpc":"2.0","id":1,"method":"sendTransaction","params":[""#));
    assert!(p.contains(r#""skipPreflight":true"#));
}

#[test]
fn websocket_messages_are_classified() {
    assert_eq!(classify_ws_message(br#"{"jsonrpc":"2.0","result":23784,"id":5}"#), WsMessage::Ack { id: 5, result: 23784 });
    let note = br#"{"jsonrpc":"2.0","method":"signatureNotification","params":{"result":{"context":{"slot":5},"value":{"err":null}},"subscription":23784}}"#;
    assert_eq!(classify_ws_message(note), WsMessage::Notification { subscription: 23784 });
    assert_eq!(classify_ws_message(b"not json"), WsMessage::Other);
    assert_eq!(redline::json::signature_status(note), Some(true));
    let failed = br#"{"params":{"result":{"value":{"err":{"InstructionError":[0,"Custom"]}}},"subscription":1}}"#;
    assert_eq!(redline::json::signature_status(failed), Some(false));
    assert_eq!(redline::json::signature_status(br#"{"params":{"subscription":1}}"#), None);
}

#[test]
fn account_notification_carries_the_request_id() {
    let data = base64::engine::general_purpose::STANDARD.encode(account_data(31337));
    let note = format!(
        r#"{{"jsonrpc":"2.0","method":"accountNotification","params":{{"result":{{"context":{{"slot":1}},"value":{{"data":["{data}","base64"],"lamports":1}}}},"subscription":7}}}}"#
    );
    assert_eq!(redline::json::account_update(note.as_bytes()), Some(31337));
    let bad = note.replace("\"base64\"", "\"hex\"");
    assert_eq!(redline::json::account_update(bad.as_bytes()), None);
}

#[test]
fn rpc_replies_are_read() {
    let sent = br#"{"jsonrpc":"2.0","result":"5VERv8NMvzbJMEkV8xnrLkEaWRtSz9CosKDYjCJjBRnbJLgp8uirBgmQpjKhoR4tjF3ZpRzrFmBV6UjKdiSZkQUW","id":1}"#;
    assert!(has_result(sent));
    assert_eq!(signature_response(sent), Some(true));
    let err = br#"{"jsonrpc":"2.0","error":{"code":-32002,"message":"failed"},"id":1}"#;
    assert!(!has_result(err));
    assert_eq!(signature_response(err), Some(false));
    assert_eq!(value_response(br#"{"result":{"context":{},"value":{"lamports":1}}}"#), Some(true));
    assert_eq!(value_response(br#"{"result":{"context":{},"value":null}}"#), Some(false));
    assert_eq!(value_response(br#"{"result":{}}"#), None);
    let h = bs58::encode([8u8; 32]).into_string();
    let reply = format!(r#"{{"result":{{"context":{{"slot":2}},"value":{{"blockhash":"{h}","lastValidBlockHeight":3}}}}}}"#);
    assert_eq!(blockhash_response(reply.as_bytes()), Some([8u8; 32]));
}

#[test]
fn transaction_carries_id_blockhash_and_signature() {
    let s = signers();
    let b = builder(&BenchMode::SimpleByteSet, 3).unwrap();
    let r = b.build(10, &s, &[7; 32]);
    let start = r#"{"jsonrpc":"2.0","id":1,"method":"sendTransaction","params":[""#;
    let rest = &r.payload[start.len()..];
    let encoded = &rest[..rest.find('"').unwrap()];
    let wire = base64::engine::general_purpose::STANDARD.decode(encoded).unwrap();
    let tx: solana_transaction::Transaction = bincode::deserialize(&wire).unwrap();
    assert_eq!(tx.message.recent_blockhash.to_bytes(), [7; 32]);
    assert_eq!(<[u8; 64]>::from(tx.signatures[0]), r.signature.unwrap().bytes);
    assert_eq!(tx.message.instructions[0].data, Instruction::SimpleByteSet { id: 10 }.encode());
}

#[test]
fn too_many_accounts_per_transaction_is_refused() {
    let many: Vec<Address> = (0..=254u8).map(|i| Address { bytes: [i; 32] }).collect();
    let ids = program_addresses().unwrap();
    let ro = BenchMode::ReadOnly { accounts_per_transaction: 255 };
    assert_eq!(make_builder(&ro, &many, AccountEncoding::Base64, ids, false).err(), Some(BuildError::InvalidMode));
    let commit = BenchMode::Commit { accounts_per_transaction: 254 };
    assert_eq!(make_builder(&commit, &many, AccountEncoding::Base64, ids, false).err(), Some(BuildError::InvalidMode));
    let ok = BenchMode::ReadOnly { accounts_per_transaction: 250 };
    let b = make_builder(&ok, &many, AccountEncoding::Base64, ids, false).unwrap();
    assert!(b.build(1, &signers(), &[0; 32]).signature.is_some());
}
