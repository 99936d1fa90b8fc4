use solana_hash::Hash as Blockhash;
use solana_instruction::{AccountMeta, Instruction as Call};
use solana_keypair::Keypair;
use solana_pubkey::Pubkey;
use solana_signer::Signer;
use solana_transaction::Transaction;
use vstd::prelude::*;

use crate::encoding::{base58_decode, base58_decoded};
use crate::types::{Address, TxSignature};

verus! {

#[verifier::external_type_specification]
#[verifier::external_body]
pub struct ExKeypair(Keypair);

/// How an instruction uses one account.
#[derive(Clone, Copy, Debug, PartialEq, Eq)]
pub struct AccountRole {
    pub address: Address,
    pub writable: bool,
}

/// The address found by the program-address search over `seeds` and
/// `program`, with its bump, if the search finds one.
pub uninterp spec fn program_address_of(seeds: Seq<Seq<u8>>, program: Seq<u8>) -> Option<(Seq<u8>, u8)>;

/// Relies on `Signer::pubkey` of `solana_keypair::Keypair`: the address of
/// the key pair.
#[verifier::external_body]
pub(crate) fn keypair_address(k: &Keypair) -> (r: Address) {
    Address { bytes: k.pubkey().to_bytes() }
}

/// Most accounts that an instruction of this library names; with the payer
/// and the program the message stays within the 255 keys its header counts.
pub const MAX_TX_ACCOUNTS: usize = 253;

/// The wire form (bincode) of the transaction that holds one instruction of
/// `program` over `accounts` with `data`, paid for and signed by the key pair
/// of `secret` against `blockhash`.
pub uninterp spec fn call_wire_of(
    program: Seq<u8>,
    accounts: Seq<AccountRole>,
    data: Seq<u8>,
    secret: Seq<u8>,
    blockhash: Seq<u8>,
) -> Seq<u8>;

/// The signature of that transaction.
pub uninterp spec fn call_signature_of(
    program: Seq<u8>,
    accounts: Seq<AccountRole>,
    data: Seq<u8>,
    secret: Seq<u8>,
    blockhash: Seq<u8>,
) -> Seq<u8>;

/// The wire form (bincode) of the system transfer of `lamports` from the key
/// pair of `secret` to `to`, signed against `blockhash`.
pub uninterp spec fn transfer_wire_of(secret: Seq<u8>, to: Seq<u8>, lamports: u64, blockhash: Seq<u8>) -> Seq<u8>;

/// Relies on `Keypair::secret_bytes`: the 32-byte secret from which
/// `Keypair::new_from_array` rebuilds the same key pair.
#[verifier::external_body]
pub(crate) fn keypair_secret(k: &Keypair) -> (r: [u8; 32]) {
    *k.secret_bytes()
}

/// Relies on `Transaction::new_signed_with_payer`, with the signer rebuilt by
/// `Keypair::new_from_array`, and on `bincode::serialize` for its wire form:
/// the signer is the only signing account and pays, so signing cannot fail,
/// and with at most `MAX_TX_ACCOUNTS` accounts the header counts fit a byte;
/// no length in the message comes near the 65535 at which bincode fails.
#[verifier::external_body]
pub(crate) fn signed_call(
    program: &Address,
    accounts: &Vec<AccountRole>,
    data: Vec<u8>,
    secret: &[u8; 32],
    blockhash: &[u8; 32],
) -> (r: (Vec<u8>, TxSignature))
    requires
        accounts@.len() <= MAX_TX_ACCOUNTS,
        data@.len() <= 1024,
    ensures
        r.0@ == call_wire_of(program.bytes@, accounts@, data@, secret@, blockhash@),
        r.1.bytes@ == call_signature_of(program.bytes@, accounts@, data@, secret@, blockhash@),
{
    let metas = accounts.iter().map(|a| AccountMeta {
        pubkey: Pubkey::new_from_array(a.address.bytes),
        is_signer: false,
        is_writable: a.writable,
    }).collect();
    let ix = Call { program_id: Pubkey::new_from_array(program.bytes), accounts: metas, data };
    let signer = Keypair::new_from_array(*secret);
    let hash = Blockhash::new_from_array(*blockhash);
    let tx = Transaction::new_signed_with_payer(&[ix], Some(&signer.pubkey()), &[&signer], hash);
    let signature = TxSignature { bytes: tx.signatures[0].into() };
    (bincode::serialize(&tx).expect("short message"), signature)
}

/// Relies on `solana_system_transaction::transfer`, with the sender rebuilt by
/// `Keypair::new_from_array`, and on `bincode::serialize` for its wire form,
/// which cannot fail for this two-account message.
#[verifier::external_body]
pub(crate) fn transfer_wire(secret: &[u8; 32], to: &Address, lamports: u64, blockhash: &[u8; 32]) -> (r: Vec<u8>)
    ensures
        r@ == transfer_wire_of(secret@, to.bytes@, lamports, blockhash@),
{
    let from = Keypair::new_from_array(*secret);
    let hash = Blockhash::new_from_array(*blockhash);
    let tx = solana_system_transaction::transfer(&from, &Pubkey::new_from_array(to.bytes), lamports, hash);
    bincode::serialize(&tx).expect("short message")
}

/// Relies on `Pubkey::try_find_program_address`: the program address of
/// `seeds` under `program` and its bump, or nothing when no bump gives one.
#[verifier::external_body]
pub(crate) fn find_program_address(seeds: &Vec<Vec<u8>>, program: &Address) -> (r: Option<(Address, u8)>)
    ensures
        r matches Some(p) ==> program_address_of(seeds@.map_values(|s: Vec<u8>| s@), program.bytes@)
            == Some((p.0.bytes@, p.1)),
        r is None ==> program_address_of(seeds@.map_values(|s: Vec<u8>| s@), program.bytes@) is None,
{
    let slices: Vec<&[u8]> = seeds.iter().map(|s| s.as_slice()).collect();
    let program_id = Pubkey::new_from_array(program.bytes);
    Pubkey::try_find_program_address(&slices, &program_id)
        .map(|(pk, bump)| (Address { bytes: pk.to_bytes() }, bump))
}

/// The address whose Base58 text is `text`, if it stands for 32 bytes.
pub open spec fn address_of_text(text: Seq<char>) -> Option<Seq<u8>> {
    match base58_decoded(text) {
        Some(b) => if b.len() == 32 {
            Some(b)
        } else {
            None
        },
        None => None,
    }
}

/// Parses the Base58 text of an address.
pub fn address_from_text(text: &str) -> (r: Option<Address>)
    ensures
        r matches Some(a) ==> address_of_text(text@) == Some(a.bytes@),
        r is None ==> address_of_text(text@) is None,
{
    let b = match base58_decode(text) {
        Some(b) => b,
        None => return None,
    };
    if b.len() != 32 {
        return None;
    }
    let mut bytes = [0u8; 32];
    let mut i: usize = 0;
    while i < 32
        invariant
            b@.len() == 32,
            i <= 32,
            forall|k: int| 0 <= k < i ==> bytes@[k] == b@[k],
        decreases 32 - i,
    {
        bytes[i] = b[i];
        i = i + 1;
    }
    assert(bytes@ =~= b@);
    Some(Address { bytes })
}

/// Seeds of a benchmark account: the base address, then the account size
/// (4 bytes, little-endian), the seed byte and the first 16 bytes of the
/// authority.
pub open spec fn pda_seeds(base: Address, space: u32, seed: u8, authority: Address) -> Seq<Seq<u8>> {
    seq![
        base.bytes@,
        crate::instruction::le_bytes(space as nat, 4) + seq![seed] + authority.bytes@.subrange(0, 16),
    ]
}

/// Derives the address of the benchmark account number `seed` of `base`.
pub fn derive_pda(base: &Address, space: u32, seed: u8, authority: &Address, program: &Address) -> (r: Option<(Address, u8)>)
    ensures
        r matches Some(p) ==> program_address_of(pda_seeds(*base, space, seed, *authority), program.bytes@)
            == Some((p.0.bytes@, p.1)),
        r is None ==> program_address_of(pda_seeds(*base, space, seed, *authority), program.bytes@) is None,
{
    let mut first: Vec<u8> = Vec::new();
    let mut i: usize = 0;
    while i < 32
        invariant
            i <= 32,
            first@ == base.bytes@.subrange(0, i as int),
        decreases 32 - i,
    {
        first.push(base.bytes[i]);
        assert(first@ =~= base.bytes@.subrange(0, i as int + 1));
        i = i + 1;
    }
    let mut second: Vec<u8> = Vec::new();
    second.push((space % 256) as u8);
    second.push(((space / 256) % 256) as u8);
    second.push(((space / 65536) % 256) as u8);
    second.push(((space / 16777216) % 256) as u8);
    second.push(seed);
    let mut j: usize = 0;
    let ghost start = second@;
    while j < 16
        invariant
            j <= 16,
            second@ == start + authority.bytes@.subrange(0, j as int),
        decreases 16 - j,
    {
        second.push(authority.bytes[j]);
        assert(second@ =~= start + authority.bytes@.subrange(0, j as int + 1));
        j = j + 1;
    }
    proof {
        reveal_with_fuel(crate::instruction::le_bytes, 5);
        assert(first@ =~= base.bytes@);
        assert(second@ =~= crate::instruction::le_bytes(space as nat, 4) + seq![seed]
            + authority.bytes@.subrange(0, 16));
    }
    let mut seeds: Vec<Vec<u8>> = Vec::new();
    seeds.push(first);
    seeds.push(second);
    proof {
        assert(seeds@.map_values(|s: Vec<u8>| s@) =~= pda_seeds(*base, space, seed, *authority));
    }
    find_program_address(&seeds, program)
}

/// The `sendTransaction` request of a one-lamport transfer from the vault
/// key pair of `vault_secret` to `pda`, which makes the base chain report a
/// change of `pda`.
pub fn transfer_request(vault_secret: &[u8; 32], pda: &Address, blockhash: &[u8; 32]) -> (r: String)
    ensures
        r@ == crate::payload::transaction_text(
            crate::encoding::base64_of(transfer_wire_of(vault_secret@, pda.bytes@, 1, blockhash@)),
            false,
        ),
{
    let wire = transfer_wire(vault_secret, pda, 1, blockhash);
    let encoded = crate::encoding::base64_encode(wire.as_slice());
    crate::payload::transaction(encoded.as_str(), false)
}

/// The benchmark accounts of signer `base`: seeds `1..=count`, all of
/// `space` bytes; `None` if the search finds no address for some seed.
pub fn benchmark_accounts(base: &Address, space: u32, count: u8, authority: &Address, program: &Address) -> (r: Option<Vec<Address>>)
    ensures
        r matches Some(v) ==> v@.len() == count && forall|i: int|
            0 <= i < count ==> (#[trigger] program_address_of(
                pda_seeds(*base, space, (i + 1) as u8, *authority),
                program.bytes@,
            ) matches Some(p) && p.0 == v@[i].bytes@),
        r is None ==> exists|i: int|
            0 <= i < count && (#[trigger] program_address_of(
                pda_seeds(*base, space, (i + 1) as u8, *authority),
                program.bytes@,
            )) is None,
{
    let mut v: Vec<Address> = Vec::new();
    let mut i: u16 = 0;
    while i < count as u16
        invariant
            i <= count,
            v@.len() == i,
            forall|k: int|
                0 <= k < v@.len() ==> (#[trigger] program_address_of(
                    pda_seeds(*base, space, (k + 1) as u8, *authority),
                    program.bytes@,
                ) matches Some(p) && p.0 == v@[k].bytes@),
        decreases count - i,
    {
        let seed = (i + 1) as u8;
        let (pda, _) = match derive_pda(base, space, seed, authority, program) {
            Some(p) => p,
            None => {
                assert((i as int + 1) as u8 == seed);
                return None;
            },
        };
        let ghost old_v = v@;
        v.push(pda);
        proof {
            assert forall|k: int| 0 <= k < v@.len() implies (#[trigger] program_address_of(
                pda_seeds(*base, space, (k + 1) as u8, *authority),
                program.bytes@,
            ) matches Some(p) && p.0 == v@[k].bytes@) by {
                if k < old_v.len() {
                    assert(v@[k] == old_v[k]);
                } else {
                    assert(k == i);
                    assert((k + 1) as u8 == seed);
                }
            }
        }
        i = i + 1;
    }
    Some(v)
}

} // verus!
