use vstd::prelude::*;

use crate::chain::{
    call_signature_of, call_wire_of, keypair_address, keypair_secret, signed_call, AccountRole,
    MAX_TX_ACCOUNTS,
};
use crate::encoding::{base64_encode, base64_of};
use crate::instruction::{encoded, Instruction};
use crate::payload::{
    get_account_info, get_account_info_text, get_balance, get_balance_text,
    get_multiple_accounts, get_multiple_accounts_text, get_token_account_balance,
    get_token_account_balance_text, transaction, transaction_text,
};
use crate::random::{random_below, random_distinct_indices, weighted_choice};
use crate::types::{AccountEncoding, Address, BenchMode, TxSignature, WeightedBenchMode};

verus! {

/// Base58 address of the benchmark program.
pub const PROGRAM_ID: &'static str = "3JnJ727jWEmPVU8qfXwtH63sCNDX7nMgsLbg8qy8aaPX";

/// Base58 address of the ephemeral validator's commit program.
pub const MAGIC_PROGRAM_ID: &'static str = "Magic11111111111111111111111111111111111111";

/// Base58 address of the ephemeral validator's commit context account.
pub const MAGIC_CONTEXT_ID: &'static str = "MagicContext1111111111111111111111111111111";

/// How a transaction builder picks its instruction.
#[derive(Clone, Copy, Debug, PartialEq, Eq, Structural)]
pub enum Strategy {
    SimpleByteSet,
    HighCuCost { iters: u32 },
    ReadWrite,
    ReadOnly { count: u8 },
    Commit { count: u8 },
}

/// Accounts that a strategy picks at random from `n` accounts.
pub open spec fn picks_needed(s: Strategy, n: nat) -> nat {
    match s {
        Strategy::ReadWrite => 2,
        Strategy::ReadOnly { count } => if count <= n {
            count as nat
        } else {
            n
        },
        Strategy::Commit { count } => if count <= n {
            count as nat
        } else {
            n
        },
        _ => 0,
    }
}

pub open spec fn readonly_roles(accounts: Seq<Address>, picks: Seq<usize>) -> Seq<AccountRole> {
    picks.map_values(|p: usize| AccountRole { address: accounts[p as int], writable: false })
}

/// The instruction and account list of one transaction: `picks` are the
/// indices drawn at random, `payer` signs.
pub open spec fn planned_call(
    s: Strategy,
    id: u64,
    accounts: Seq<Address>,
    picks: Seq<usize>,
    payer: Address,
    context: Address,
    magic: Address,
) -> (Instruction, Seq<AccountRole>) {
    let rr = accounts[(id % (accounts.len() as u64)) as int];
    match s {
        Strategy::SimpleByteSet => (
            Instruction::SimpleByteSet { id },
            seq![AccountRole { address: rr, writable: true }],
        ),
        Strategy::HighCuCost { iters } => (
            Instruction::ExpensiveHashCompute { id, init: rr, iters },
            seq![AccountRole { address: rr, writable: true }],
        ),
        Strategy::ReadWrite => (
            Instruction::AccountDataCopy { id },
            seq![
                AccountRole { address: accounts[picks[0] as int], writable: false },
                AccountRole { address: accounts[picks[1] as int], writable: true },
            ],
        ),
        Strategy::ReadOnly { .. } => (
            Instruction::ReadAccountsData { id },
            readonly_roles(accounts, picks),
        ),
        Strategy::Commit { .. } => (
            Instruction::CommitAccounts { id },
            seq![
                AccountRole { address: payer, writable: true },
                AccountRole { address: context, writable: true },
                AccountRole { address: magic, writable: false },
            ] + readonly_roles(accounts, picks),
        ),
    }
}

/// Builds the instruction and account list of one transaction.
pub fn plan_call(
    s: Strategy,
    id: u64,
    accounts: &Vec<Address>,
    picks: &Vec<usize>,
    payer: Address,
    context: Address,
    magic: Address,
) -> (r: (Instruction, Vec<AccountRole>))
    requires
        accounts@.len() > 0,
        picks@.len() == picks_needed(s, accounts@.len()),
        forall|i: int| 0 <= i < picks@.len() ==> #[trigger] picks@[i] < accounts@.len(),
    ensures
        (r.0, r.1@) == planned_call(s, id, accounts@, picks@, payer, context, magic),
{
    let n = accounts.len() as u64;
    let rr = accounts[(id % n) as usize];
    match s {
        Strategy::SimpleByteSet => {
            (Instruction::SimpleByteSet { id }, vec![AccountRole { address: rr, writable: true }])
        },
        Strategy::HighCuCost { iters } => {
            (
                Instruction::ExpensiveHashCompute { id, init: rr, iters },
                vec![AccountRole { address: rr, writable: true }],
            )
        },
        Strategy::ReadWrite => {
            let r = vec![
                AccountRole { address: accounts[picks[0]], writable: false },
                AccountRole { address: accounts[picks[1]], writable: true },
            ];
            assert(r@ =~= planned_call(s, id, accounts@, picks@, payer, context, magic).1);
            (Instruction::AccountDataCopy { id }, r)
        },
        Strategy::ReadOnly { .. } => {
            let r = readonly(accounts, picks, Vec::new());
            assert(r@ =~= planned_call(s, id, accounts@, picks@, payer, context, magic).1);
            (Instruction::ReadAccountsData { id }, r)
        },
        Strategy::Commit { .. } => {
            let head = vec![
                AccountRole { address: payer, writable: true },
                AccountRole { address: context, writable: true },
                AccountRole { address: magic, writable: false },
            ];
            let r = readonly(accounts, picks, head);
            assert(r@ =~= planned_call(s, id, accounts@, picks@, payer, context, magic).1);
            (Instruction::CommitAccounts { id }, r)
        },
    }
}

fn readonly(accounts: &Vec<Address>, picks: &Vec<usize>, head: Vec<AccountRole>) -> (r: Vec<AccountRole>)
    requires
        forall|i: int| 0 <= i < picks@.len() ==> #[trigger] picks@[i] < accounts@.len(),
    ensures
        r@ == head@ + readonly_roles(accounts@, picks@),
{
    let mut r = head;
    let mut i: usize = 0;
    while i < picks.len()
        invariant
            i <= picks@.len(),
            forall|k: int| 0 <= k < picks@.len() ==> #[trigger] picks@[k] < accounts@.len(),
            r@ == head@ + readonly_roles(accounts@, picks@.subrange(0, i as int)),
        decreases picks@.len() - i,
    {
        r.push(AccountRole { address: accounts[picks[i]], writable: false });
        assert(r@ =~= head@ + readonly_roles(accounts@, picks@.subrange(0, i as int + 1)));
        i = i + 1;
    }
    assert(picks@.subrange(0, picks@.len() as int) =~= picks@);
    r
}

/// The sum of the first `k` weights.
pub open spec fn prefix_weight(w: Seq<u16>, k: int) -> int
    decreases k,
{
    if k <= 0 {
        0
    } else {
        prefix_weight(w, k - 1) + w[k - 1]
    }
}

proof fn lemma_prefix_monotone(w: Seq<u16>, a: int, b: int)
    requires
        0 <= a <= b <= w.len(),
    ensures
        prefix_weight(w, a) <= prefix_weight(w, b),
    decreases b - a,
{
    if a < b {
        lemma_prefix_monotone(w, a, b - 1);
    }
}

/// A key pair that signs transactions, as its 32-byte secret, with its
/// address.
#[derive(Clone, Copy, Debug, PartialEq, Eq)]
pub struct SignerKey {
    pub secret: [u8; 32],
    pub address: Address,
}

impl SignerKey {
    /// The secret and the address of `k`.
    pub fn new(k: &solana_keypair::Keypair) -> (r: Self) {
        SignerKey { secret: keypair_secret(k), address: keypair_address(k) }
    }
}

/// The key pairs that sign transactions.
pub struct Signers {
    keys: Vec<SignerKey>,
}

impl Signers {
    pub closed spec fn spec_keys(&self) -> Seq<SignerKey> {
        self.keys@
    }

    pub open spec fn wf(&self) -> bool {
        self.spec_keys().len() > 0
    }

    /// The address of the first signer, which owns the benchmark accounts.
    pub fn first_address(&self) -> (r: Option<Address>)
        ensures
            self.spec_keys().len() > 0 ==> r == Some(self.spec_keys()[0].address),
            self.spec_keys().len() == 0 ==> r is None,
    {
        if self.keys.len() > 0 {
            Some(self.keys[0].address)
        } else {
            None
        }
    }

    /// The signers `keys`.
    pub fn new(keys: Vec<solana_keypair::Keypair>) -> (r: Self)
        ensures
            r.spec_keys().len() == keys@.len(),
    {
        let mut v: Vec<SignerKey> = Vec::new();
        let mut i: usize = 0;
        while i < keys.len()
            invariant
                i <= keys@.len(),
                v@.len() == i,
            decreases keys@.len() - i,
        {
            v.push(SignerKey::new(&keys[i]));
            i = i + 1;
        }
        Signers { keys: v }
    }
}

/// `picks` are `picks_needed(s, n)` distinct indices below `n`.
pub open spec fn picks_ok(s: Strategy, n: nat, picks: Seq<usize>) -> bool {
    &&& picks.len() == picks_needed(s, n)
    &&& forall|i: int| 0 <= i < picks.len() ==> #[trigger] picks[i] < n
    &&& forall|i: int, j: int| 0 <= i < j < picks.len() ==> picks[i] != picks[j]
}

/// The payload and signature of the transaction of `t` for `id` signed by
/// `signer` with accounts `picks` drawn, against `blockhash`.
pub open spec fn signed_request(
    t: TransactionBuilder,
    id: u64,
    signer: SignerKey,
    picks: Seq<usize>,
    blockhash: Seq<u8>,
    r: BuiltRequest,
) -> bool {
    let call = planned_call(
        t.strategy,
        id,
        t.accounts@,
        picks,
        signer.address,
        t.magic_context,
        t.magic_program,
    );
    let wire = call_wire_of(t.program.bytes@, call.1, encoded(call.0), signer.secret@, blockhash);
    &&& r.payload@ == transaction_text(base64_of(wire), t.preflight_check)
    &&& r.signature matches Some(sg) && sg.bytes@ == call_signature_of(
        t.program.bytes@,
        call.1,
        encoded(call.0),
        signer.secret@,
        blockhash,
    )
}

/// Which parser reads the `result` of the response to a request.
#[derive(Clone, Copy, Debug, PartialEq, Eq, Structural)]
pub enum ExtractorKind {
    /// A signature string: the transaction was accepted.
    SignatureResponse,
    /// An object under `value`: the account was read.
    Value,
}

/// One request ready to send.
pub struct BuiltRequest {
    pub name: &'static str,
    pub payload: String,
    pub signature: Option<TxSignature>,
    pub extractor: ExtractorKind,
}

/// Builds the transactions of one strategy.
pub struct TransactionBuilder {
    pub strategy: Strategy,
    pub accounts: Vec<Address>,
    pub program: Address,
    pub magic_context: Address,
    pub magic_program: Address,
    pub preflight_check: bool,
}

/// The request-builder tree.
pub enum RequestBuilder {
    Transaction(TransactionBuilder),
    GetAccountInfo { accounts: Vec<Address>, encoding: AccountEncoding },
    GetMultipleAccounts { accounts: Vec<Address>, encoding: AccountEncoding },
    GetBalance { accounts: Vec<Address> },
    GetTokenAccountBalance { accounts: Vec<Address> },
    Mixed { children: Vec<RequestBuilder>, weights: Vec<u16>, total: u64, accounts: Vec<Address> },
}

pub open spec fn strategy_name(s: Strategy) -> Seq<char> {
    match s {
        Strategy::SimpleByteSet => "SimpleByteSet"@,
        Strategy::HighCuCost { .. } => "HighCuCost"@,
        Strategy::ReadWrite => "ReadWrite"@,
        Strategy::ReadOnly { .. } => "ReadOnly"@,
        Strategy::Commit { .. } => "Commit"@,
    }
}

fn strategy_str(s: Strategy) -> (r: &'static str)
    ensures
        r@ == strategy_name(s),
{
    match s {
        Strategy::SimpleByteSet => "SimpleByteSet",
        Strategy::HighCuCost { .. } => "HighCuCost",
        Strategy::ReadWrite => "ReadWrite",
        Strategy::ReadOnly { .. } => "ReadOnly",
        Strategy::Commit { .. } => "Commit",
    }
}

impl RequestBuilder {
    /// Well-formed trees: every leaf has accounts (two at least for
    /// `ReadWrite`), every mixed node has children with positive weights and
    /// their exact total.
    pub open spec fn wf(self) -> bool
        decreases self,
    {
        match self {
            RequestBuilder::Transaction(t) => {
                &&& t.accounts@.len() > 0
                &&& t.strategy == Strategy::ReadWrite ==> t.accounts@.len() >= 2
                &&& picks_needed(t.strategy, t.accounts@.len()) + 3 <= MAX_TX_ACCOUNTS
            },
            RequestBuilder::GetAccountInfo { accounts, .. } => accounts@.len() > 0,
            RequestBuilder::GetMultipleAccounts { accounts, .. } => accounts@.len() > 0,
            RequestBuilder::GetBalance { accounts } => accounts@.len() > 0,
            RequestBuilder::GetTokenAccountBalance { accounts } => accounts@.len() > 0,
            RequestBuilder::Mixed { children, weights, total, accounts } => {
                &&& children@.len() > 0
                &&& weights@.len() == children@.len()
                &&& forall|i: int|
                    0 <= i < children@.len() ==> (#[trigger] children@[i]).spec_accounts()
                        == accounts@
                &&& total == prefix_weight(weights@, weights@.len() as int)
                &&& forall|i: int| 0 <= i < weights@.len() ==> #[trigger] weights@[i] > 0
                &&& forall|i: int|
                    0 <= i < children@.len() ==> {
                        decreases_to!(self => children@[i]);
                        (#[trigger] children@[i]).wf()
                    }
            },
        }
    }

    /// `r` is a request that this builder may produce for `id`: the exact
    /// payload of a read request, a signed transaction for a transaction
    /// strategy, and for a mixed node a request of one of its children.
    pub open spec fn builds(
        self,
        id: u64,
        signers: Seq<SignerKey>,
        blockhash: Seq<u8>,
        r: BuiltRequest,
    ) -> bool
        decreases self,
    {
        match self {
            RequestBuilder::Transaction(t) => {
                &&& r.name@ == strategy_name(t.strategy)
                &&& r.extractor == ExtractorKind::SignatureResponse
                &&& exists|who: int, picks: Seq<usize>|
                    0 <= who < signers.len() && picks_ok(t.strategy, t.accounts@.len(), picks)
                        && #[trigger] signed_request(t, id, signers[who], picks, blockhash, r)
            },
            RequestBuilder::GetAccountInfo { accounts, encoding } => {
                &&& r.name@ == "GetAccountInfo"@
                &&& r.payload@ == get_account_info_text(
                    accounts@[(id % (accounts@.len() as u64)) as int],
                    encoding,
                    id,
                )
                &&& r.signature is None
                &&& r.extractor == ExtractorKind::Value
            },
            RequestBuilder::GetMultipleAccounts { accounts, encoding } => {
                &&& r.name@ == "GetMultipleAccounts"@
                &&& r.payload@ == get_multiple_accounts_text(accounts@, encoding, id)
                &&& r.signature is None
                &&& r.extractor == ExtractorKind::Value
            },
            RequestBuilder::GetBalance { accounts } => {
                &&& r.name@ == "GetBalance"@
                &&& r.payload@ == get_balance_text(accounts@[(id % (accounts@.len() as u64)) as int], id)
                &&& r.signature is None
                &&& r.extractor == ExtractorKind::Value
            },
            RequestBuilder::GetTokenAccountBalance { accounts } => {
                &&& r.name@ == "GetTokenAccountBalance"@
                &&& r.payload@ == get_token_account_balance_text(
                    accounts@[(id % (accounts@.len() as u64)) as int],
                    id,
                )
                &&& r.signature is None
                &&& r.extractor == ExtractorKind::Value
            },
            RequestBuilder::Mixed { children, .. } => exists|i: int|
                0 <= i < children@.len() && {
                    decreases_to!(self => children@[i]);
                    (#[trigger] children@[i]).builds(id, signers, blockhash, r)
                },
        }
    }

    /// The accounts the builder works on (the same for every child of a mixed
    /// node).
    pub open spec fn spec_accounts(self) -> Seq<Address> {
        match self {
            RequestBuilder::Transaction(t) => t.accounts@,
            RequestBuilder::GetAccountInfo { accounts, .. } => accounts@,
            RequestBuilder::GetMultipleAccounts { accounts, .. } => accounts@,
            RequestBuilder::GetBalance { accounts } => accounts@,
            RequestBuilder::GetTokenAccountBalance { accounts } => accounts@,
            RequestBuilder::Mixed { accounts, .. } => accounts@,
        }
    }

    /// Returns the accounts the builder works on, for account subscriptions.
    pub fn accounts(&self) -> (r: Vec<Address>)
        ensures
            r@ == self.spec_accounts(),
    {
        let a = match self {
            RequestBuilder::Transaction(t) => &t.accounts,
            RequestBuilder::GetAccountInfo { accounts, .. } => accounts,
            RequestBuilder::GetMultipleAccounts { accounts, .. } => accounts,
            RequestBuilder::GetBalance { accounts } => accounts,
            RequestBuilder::GetTokenAccountBalance { accounts } => accounts,
            RequestBuilder::Mixed { accounts, .. } => accounts,
        };
        let mut r: Vec<Address> = Vec::new();
        let mut i: usize = 0;
        while i < a.len()
            invariant
                i <= a@.len(),
                r@ == a@.subrange(0, i as int),
            decreases a@.len() - i,
        {
            r.push(a[i]);
            assert(r@ =~= a@.subrange(0, i as int + 1));
            i = i + 1;
        }
        assert(a@.subrange(0, a@.len() as int) =~= a@);
        r
    }

    /// Builds the request for `id`, signing transactions with a signer drawn
    /// at random against `blockhash`.
    pub fn build(&self, id: u64, signers: &Signers, blockhash: &[u8; 32]) -> (r: BuiltRequest)
        requires
            self.wf(),
            signers.wf(),
        ensures
            self.builds(id, signers.spec_keys(), blockhash@, r),
        decreases self,
    {
        match self {
            RequestBuilder::Transaction(t) => t.build(id, signers, blockhash),
            RequestBuilder::GetAccountInfo { accounts, encoding } => {
                let pk = &accounts[(id % accounts.len() as u64) as usize];
                BuiltRequest {
                    name: "GetAccountInfo",
                    payload: get_account_info(pk, *encoding, id),
                    signature: None,
                    extractor: ExtractorKind::Value,
                }
            },
            RequestBuilder::GetMultipleAccounts { accounts, encoding } => {
                BuiltRequest {
                    name: "GetMultipleAccounts",
                    payload: get_multiple_accounts(accounts, *encoding, id),
                    signature: None,
                    extractor: ExtractorKind::Value,
                }
            },
            RequestBuilder::GetBalance { accounts } => {
                let pk = &accounts[(id % accounts.len() as u64) as usize];
                BuiltRequest {
                    name: "GetBalance",
                    payload: get_balance(pk, id),
                    signature: None,
                    extractor: ExtractorKind::Value,
                }
            },
            RequestBuilder::GetTokenAccountBalance { accounts } => {
                let pk = &accounts[(id % accounts.len() as u64) as usize];
                BuiltRequest {
                    name: "GetTokenAccountBalance",
                    payload: get_token_account_balance(pk, id),
                    signature: None,
                    extractor: ExtractorKind::Value,
                }
            },
            RequestBuilder::Mixed { children, weights, .. } => {
                let i = weighted_choice(weights);
                assert(decreases_to!(self => children@[i as int]));
                let r = children[i].build(id, signers, blockhash);
                assert(children@[i as int].builds(id, signers.spec_keys(), blockhash@, r));
                r
            },
        }
    }
}

impl TransactionBuilder {
    /// Builds and signs the transaction for `id`: a signer drawn at random
    /// pays and signs, the strategy's accounts are drawn at random.
    pub fn build(&self, id: u64, signers: &Signers, blockhash: &[u8; 32]) -> (r: BuiltRequest)
        requires
            self.accounts@.len() > 0,
            self.strategy == Strategy::ReadWrite ==> self.accounts@.len() >= 2,
            picks_needed(self.strategy, self.accounts@.len()) + 3 <= MAX_TX_ACCOUNTS,
            signers.wf(),
        ensures
            RequestBuilder::Transaction(*self).builds(id, signers.spec_keys(), blockhash@, r),
    {
        let k = signers.keys.len();
        let who = random_below(k as u64) as usize;
        let signer = signers.keys[who];
        let n = self.accounts.len();
        let needed: usize = match self.strategy {
            Strategy::ReadWrite => 2,
            Strategy::ReadOnly { count } => if (count as usize) <= n {
                count as usize
            } else {
                n
            },
            Strategy::Commit { count } => if (count as usize) <= n {
                count as usize
            } else {
                n
            },
            _ => 0,
        };
        let picks = random_distinct_indices(n, needed);
        let (ix, roles) = plan_call(
            self.strategy,
            id,
            &self.accounts,
            &picks,
            signer.address,
            self.magic_context,
            self.magic_program,
        );
        let data = ix.encode();
        proof {
            crate::instruction::lemma_encoded_len(ix);
            lemma_roles_len(self.strategy, id, self.accounts@, picks@, signer.address, self.magic_context, self.magic_program);
        }
        let (wire, signature) = signed_call(&self.program, &roles, data, &signer.secret, blockhash);
        let encoded_wire = base64_encode(wire.as_slice());
        let payload = transaction(encoded_wire.as_str(), self.preflight_check);
        let r = BuiltRequest {
            name: strategy_str(self.strategy),
            payload,
            signature: Some(signature),
            extractor: ExtractorKind::SignatureResponse,
        };
        assert(signed_request(*self, id, signers.spec_keys()[who as int], picks@, blockhash@, r));
        r
    }
}

proof fn lemma_roles_len(
    s: Strategy,
    id: u64,
    accounts: Seq<Address>,
    picks: Seq<usize>,
    payer: Address,
    context: Address,
    magic: Address,
)
    requires
        accounts.len() > 0,
    ensures
        planned_call(s, id, accounts, picks, payer, context, magic).1.len() <= picks.len() + 3,
{
}

/// Why a builder tree cannot be made.
#[derive(Clone, Copy, Debug, PartialEq, Eq, Structural)]
pub enum BuildError {
    /// There is no account to work on.
    NoAccounts,
    /// A mixed mode is empty, has a zero weight or weights that overflow,
    /// `ReadWrite` has fewer than two accounts, or a transaction would name
    /// more than `MAX_TX_ACCOUNTS` accounts.
    InvalidMode,
}

/// The transaction strategy of a mode, if it produces transactions.
pub open spec fn strategy_of(m: BenchMode) -> Option<Strategy> {
    match m {
        BenchMode::SimpleByteSet => Some(Strategy::SimpleByteSet),
        BenchMode::HighCuCost { iters } => Some(Strategy::HighCuCost { iters }),
        BenchMode::ReadWrite => Some(Strategy::ReadWrite),
        BenchMode::ReadOnly { accounts_per_transaction } => Some(
            Strategy::ReadOnly { count: accounts_per_transaction },
        ),
        BenchMode::Commit { accounts_per_transaction } => Some(
            Strategy::Commit { count: accounts_per_transaction },
        ),
        _ => None,
    }
}

pub open spec fn mode_weights(ms: Seq<WeightedBenchMode<BenchMode>>) -> Seq<u16> {
    ms.map_values(|x: WeightedBenchMode<BenchMode>| x.weight)
}

/// Whether a builder tree can be made for mode `m` over `n` accounts.
pub open spec fn mode_ok(m: BenchMode, n: nat) -> bool
    decreases m,
{
    match m {
        BenchMode::ReadWrite => n >= 2,
        BenchMode::ReadOnly { .. } | BenchMode::Commit { .. } => picks_needed(
            strategy_of(m)->0,
            n,
        ) + 3 <= MAX_TX_ACCOUNTS,
        BenchMode::Mixed(ms) => {
            &&& ms@.len() > 0
            &&& forall|i: int| 0 <= i < ms@.len() ==> #[trigger] ms@[i].weight > 0
            &&& prefix_weight(mode_weights(ms@), ms@.len() as int) <= u64::MAX
            &&& forall|i: int|
                0 <= i < ms@.len() ==> {
                    decreases_to!(m => ms@[i].mode);
                    mode_ok((#[trigger] ms@[i]).mode, n)
                }
        },
        _ => true,
    }
}

/// Whether builder `b` was made for mode `m` over `accounts`.
pub open spec fn corresponds(
    b: RequestBuilder,
    m: BenchMode,
    accounts: Seq<Address>,
    encoding: AccountEncoding,
    preflight: bool,
) -> bool
    decreases m,
{
    match m {
        BenchMode::GetAccountInfo => match b {
            RequestBuilder::GetAccountInfo { accounts: a, encoding: e } => a@ == accounts && e
                == encoding,
            _ => false,
        },
        BenchMode::GetMultipleAccounts => match b {
            RequestBuilder::GetMultipleAccounts { accounts: a, encoding: e } => a@ == accounts && e
                == encoding,
            _ => false,
        },
        BenchMode::GetBalance => match b {
            RequestBuilder::GetBalance { accounts: a } => a@ == accounts,
            _ => false,
        },
        BenchMode::GetTokenAccountBalance => match b {
            RequestBuilder::GetTokenAccountBalance { accounts: a } => a@ == accounts,
            _ => false,
        },
        BenchMode::Mixed(ms) => match b {
            RequestBuilder::Mixed { children, weights, accounts: a, .. } => {
                &&& a@ == accounts
                &&& children@.len() == ms@.len()
                &&& weights@ == mode_weights(ms@)
                &&& forall|i: int|
                    0 <= i < ms@.len() ==> {
                        decreases_to!(m => ms@[i].mode);
                        corresponds(children@[i], (#[trigger] ms@[i]).mode, accounts, encoding, preflight)
                    }
            },
            _ => false,
        },
        _ => match b {
            RequestBuilder::Transaction(t) => {
                &&& strategy_of(m) == Some(t.strategy)
                &&& t.accounts@ == accounts
                &&& t.preflight_check == preflight
            },
            _ => false,
        },
    }
}

fn copy_addresses(a: &Vec<Address>) -> (r: Vec<Address>)
    ensures
        r@ == a@,
{
    let mut r: Vec<Address> = Vec::new();
    let mut i: usize = 0;
    while i < a.len()
        invariant
            i <= a@.len(),
            r@ == a@.subrange(0, i as int),
        decreases a@.len() - i,
    {
        r.push(a[i]);
        assert(r@ =~= a@.subrange(0, i as int + 1));
        i = i + 1;
    }
    assert(a@.subrange(0, a@.len() as int) =~= a@);
    r
}

/// The fixed addresses that transactions refer to.
#[derive(Clone, Copy, Debug, PartialEq, Eq)]
pub struct ProgramAddresses {
    pub program: Address,
    pub magic_context: Address,
    pub magic_program: Address,
}

/// The addresses of the benchmark program and of the commit program and
/// context, from their Base58 constants.
pub fn program_addresses() -> (r: Option<ProgramAddresses>)
    ensures
        r matches Some(ids) ==> {
            &&& crate::chain::address_of_text(PROGRAM_ID@) == Some(ids.program.bytes@)
            &&& crate::chain::address_of_text(MAGIC_CONTEXT_ID@) == Some(ids.magic_context.bytes@)
            &&& crate::chain::address_of_text(MAGIC_PROGRAM_ID@) == Some(ids.magic_program.bytes@)
        },
        r is None ==> crate::chain::address_of_text(PROGRAM_ID@) is None
            || crate::chain::address_of_text(MAGIC_CONTEXT_ID@) is None
            || crate::chain::address_of_text(MAGIC_PROGRAM_ID@) is None,
{
    let program = crate::chain::address_from_text(PROGRAM_ID)?;
    let magic_context = crate::chain::address_from_text(MAGIC_CONTEXT_ID)?;
    let magic_program = crate::chain::address_from_text(MAGIC_PROGRAM_ID)?;
    Some(ProgramAddresses { program, magic_context, magic_program })
}

/// Makes the builder tree of mode `mode` over `accounts`.
pub fn make_builder(
    mode: &BenchMode,
    accounts: &Vec<Address>,
    encoding: AccountEncoding,
    ids: ProgramAddresses,
    preflight_check: bool,
) -> (r: Result<RequestBuilder, BuildError>)
    ensures
        accounts@.len() == 0 ==> r == Err::<RequestBuilder, BuildError>(BuildError::NoAccounts),
        accounts@.len() > 0 && !mode_ok(*mode, accounts@.len()) ==> r == Err::<
            RequestBuilder,
            BuildError,
        >(BuildError::InvalidMode),
        accounts@.len() > 0 && mode_ok(*mode, accounts@.len()) ==> (r matches Ok(b) && b.wf()
            && corresponds(b, *mode, accounts@, encoding, preflight_check) && b.spec_accounts()
            == accounts@),
    decreases mode,
{
    if accounts.len() == 0 {
        return Err(BuildError::NoAccounts);
    }
    match mode {
        BenchMode::GetAccountInfo => Ok(
            RequestBuilder::GetAccountInfo { accounts: copy_addresses(accounts), encoding },
        ),
        BenchMode::GetMultipleAccounts => Ok(
            RequestBuilder::GetMultipleAccounts { accounts: copy_addresses(accounts), encoding },
        ),
        BenchMode::GetBalance => Ok(RequestBuilder::GetBalance { accounts: copy_addresses(accounts) }),
        BenchMode::GetTokenAccountBalance => Ok(
            RequestBuilder::GetTokenAccountBalance { accounts: copy_addresses(accounts) },
        ),
        BenchMode::Mixed(ms) => {
            let n = ms.len();
            if n == 0 {
                return Err(BuildError::InvalidMode);
            }
            let mut children: Vec<RequestBuilder> = Vec::new();
            let mut weights: Vec<u16> = Vec::new();
            let mut total: u64 = 0;
            let mut i: usize = 0;
            while i < n
                invariant
                    n == ms@.len(),
                    *mode == BenchMode::Mixed(*ms),
                    i <= n,
                    accounts@.len() > 0,
                    children@.len() == i,
                    weights@ == mode_weights(ms@).subrange(0, i as int),
                    total == prefix_weight(weights@, i as int),
                    forall|k: int| 0 <= k < i ==> #[trigger] ms@[k].weight > 0,
                    forall|k: int| 0 <= k < i ==> mode_ok(#[trigger] ms@[k].mode, accounts@.len()),
                    forall|k: int| 0 <= k < i ==> (#[trigger] children@[k]).wf(),
                    forall|k: int| 0 <= k < i ==> (#[trigger] children@[k]).spec_accounts() == accounts@,
                    forall|k: int|
                        0 <= k < i ==> corresponds(
                            #[trigger] children@[k],
                            ms@[k].mode,
                            accounts@,
                            encoding,
                            preflight_check,
                        ),
                    forall|k: int| 0 <= k < i ==> #[trigger] weights@[k] > 0,
                decreases n - i,
            {
                let w = &ms[i];
                if w.weight == 0 {
                    assert(ms@[i as int].weight == 0);
                    return Err(BuildError::InvalidMode);
                }
                proof {
                    assert(decreases_to!(*mode => (*mode)->Mixed_0));
                    assert(decreases_to!(*ms => ms[i as int]));
                    assert(decreases_to!(ms[i as int] => ms[i as int].mode));
                }
                let child = match make_builder(&w.mode, accounts, encoding, ids, preflight_check) {
                    Ok(c) => c,
                    Err(e) => {
                        assert(!mode_ok(ms@[i as int].mode, accounts@.len()));
                        return Err(e);
                    },
                };
                assert(ms@[i as int] == *w);
                if total > u64::MAX - w.weight as u64 {
                    proof {
                        lemma_prefix_ge(mode_weights(ms@), i as int + 1, n as int);
                        assert(prefix_weight(mode_weights(ms@), i as int + 1) == prefix_weight(
                            mode_weights(ms@),
                            i as int,
                        ) + ms@[i as int].weight);
                        lemma_prefix_same(weights@, mode_weights(ms@), i as int);
                    }
                    return Err(BuildError::InvalidMode);
                }
                total = total + w.weight as u64;
                children.push(child);
                weights.push(w.weight);
                proof {
                    assert(weights@ =~= mode_weights(ms@).subrange(0, i as int + 1));
                    lemma_prefix_same(weights@, weights@.drop_last(), i as int);
                    assert(weights@.drop_last() =~= mode_weights(ms@).subrange(0, i as int));
                }
                i = i + 1;
            }
            proof {
                assert(weights@ =~= mode_weights(ms@));
            }
            Ok(RequestBuilder::Mixed { children, weights, total, accounts: copy_addresses(accounts) })
        },
        _ => {
            let strategy = match mode {
                BenchMode::SimpleByteSet => Strategy::SimpleByteSet,
                BenchMode::HighCuCost { iters } => Strategy::HighCuCost { iters: *iters },
                BenchMode::ReadWrite => Strategy::ReadWrite,
                BenchMode::ReadOnly { accounts_per_transaction } => Strategy::ReadOnly {
                    count: *accounts_per_transaction,
                },
                _ => {
                    let count = match mode {
                        BenchMode::Commit { accounts_per_transaction } => *accounts_per_transaction,
                        _ => 0,
                    };
                    Strategy::Commit { count }
                },
            };
            if strategy == Strategy::ReadWrite && accounts.len() < 2 {
                return Err(BuildError::InvalidMode);
            }
            let n = accounts.len();
            let picked: usize = match strategy {
                Strategy::ReadOnly { count } | Strategy::Commit { count } => if (count as usize)
                    <= n {
                    count as usize
                } else {
                    n
                },
                _ => 0,
            };
            if picked + 3 > MAX_TX_ACCOUNTS {
                return Err(BuildError::InvalidMode);
            }
            Ok(
                RequestBuilder::Transaction(
                    TransactionBuilder {
                        strategy,
                        accounts: copy_addresses(accounts),
                        program: ids.program,
                        magic_context: ids.magic_context,
                        magic_program: ids.magic_program,
                        preflight_check,
                    },
                ),
            )
        },
    }
}

proof fn lemma_prefix_same(a: Seq<u16>, b: Seq<u16>, k: int)
    requires
        0 <= k <= a.len(),
        k <= b.len(),
        forall|j: int| 0 <= j < k ==> a[j] == b[j],
    ensures
        prefix_weight(a, k) == prefix_weight(b, k),
    decreases k,
{
    if k > 0 {
        lemma_prefix_same(a, b, k - 1);
    }
}

proof fn lemma_prefix_ge(w: Seq<u16>, a: int, b: int)
    requires
        0 <= a <= b <= w.len(),
    ensures
        prefix_weight(w, a) <= prefix_weight(w, b),
{
    lemma_prefix_monotone(w, a, b);
}

} // verus!
