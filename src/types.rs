use vstd::prelude::*;

verus! {

/// Encoding in which account data is requested from the RPC endpoint.
#[derive(Clone, Copy, Debug, PartialEq, Eq, Structural)]
pub enum AccountEncoding {
    Base58,
    Base64,
    Base64Zstd,
}

/// The wire name of an encoding.
pub open spec fn encoding_name(e: AccountEncoding) -> Seq<char> {
    match e {
        AccountEncoding::Base58 => "base58"@,
        AccountEncoding::Base64 => "base64"@,
        AccountEncoding::Base64Zstd => "base64+zstd"@,
    }
}

impl AccountEncoding {
    /// Returns the string representation of the account encoding.
    pub fn as_str(&self) -> (r: &'static str)
        ensures
            r@ == encoding_name(*self),
    {
        match self {
            AccountEncoding::Base58 => "base58",
            AccountEncoding::Base64 => "base64",
            AccountEncoding::Base64Zstd => "base64+zstd",
        }
    }
}

/// A 32-byte account address.
#[derive(Clone, Copy, Debug, PartialEq, Eq)]
pub struct Address {
    pub bytes: [u8; 32],
}

/// A 64-byte transaction signature.
#[derive(Clone, Copy, Debug, PartialEq, Eq)]
pub struct TxSignature {
    pub bytes: [u8; 64],
}

/// Size in bytes of each benchmark account.
#[derive(Clone, Copy, Debug, PartialEq, Eq, Structural)]
pub enum AccountSize {
    BYTES128,
    BYTES512,
    BYTES2048,
    BYTES8192,
}

pub open spec fn size_bytes(s: AccountSize) -> u32 {
    match s {
        AccountSize::BYTES128 => 128,
        AccountSize::BYTES512 => 512,
        AccountSize::BYTES2048 => 2048,
        AccountSize::BYTES8192 => 8192,
    }
}

impl AccountSize {
    /// Number of data bytes of an account of this size.
    pub fn bytes(&self) -> (r: u32)
        ensures
            r == size_bytes(*self),
    {
        match self {
            AccountSize::BYTES128 => 128,
            AccountSize::BYTES512 => 512,
            AccountSize::BYTES2048 => 2048,
            AccountSize::BYTES8192 => 8192,
        }
    }
}

/// HTTP protocol version used by every connection of a pool.
#[derive(Clone, Copy, Debug, PartialEq, Eq, Structural)]
pub enum ConnectionType {
    Http1,
    Http2,
}

/// The workload that an engine generates.
#[derive(Debug)]
pub enum BenchMode {
    /// Writes the request id over the data of one account.
    SimpleByteSet,
    /// Runs an expensive hash chain seeded by an account address.
    HighCuCost { iters: u32 },
    /// Copies the data of one account into another.
    ReadWrite,
    /// Reads the data of several accounts.
    ReadOnly { accounts_per_transaction: u8 },
    /// Commits several accounts to the base chain.
    Commit { accounts_per_transaction: u8 },
    /// `getAccountInfo` on one account.
    GetAccountInfo,
    /// `getMultipleAccounts` on every account.
    GetMultipleAccounts,
    /// `getBalance` on one account.
    GetBalance,
    /// `getTokenAccountBalance` on one account.
    GetTokenAccountBalance,
    /// A weighted random choice among several modes.
    Mixed(Vec<WeightedBenchMode<BenchMode>>),
}

/// A mode together with its relative weight inside a mixed workload.
#[derive(Debug)]
pub struct WeightedBenchMode<M> {
    pub mode: M,
    pub weight: u16,
}

/// Settings of the load itself.
#[derive(Debug)]
pub struct BenchmarkSettings {
    pub iterations: u64,
    pub rate: u32,
    pub concurrency: usize,
    pub preflight_check: bool,
    pub clone_frequency_ms: u64,
    pub accounts_count: u8,
    pub mode: BenchMode,
}

/// Which confirmations are awaited for every transaction.
#[derive(Clone, Copy, Debug, PartialEq, Eq, Structural)]
pub struct ConfirmationSettings {
    pub subscribe_to_accounts: bool,
    pub subscribe_to_signatures: bool,
    pub get_signature_status: bool,
    pub enforce_total_sync: bool,
}

/// Which subscriptions are opened and whether the rate waits for them.
#[derive(Clone, Copy, Debug, PartialEq, Eq, Structural)]
pub struct SubscriptionSettings {
    pub subscribe_to_accounts: bool,
    pub subscribe_to_signatures: bool,
    pub enforce_total_sync: bool,
}

/// Shape of the benchmark accounts' data.
#[derive(Clone, Copy, Debug, PartialEq, Eq, Structural)]
pub struct DataSettings {
    pub account_encoding: AccountEncoding,
    pub account_size: AccountSize,
}

/// Settings of a transaction-only benchmark.
#[derive(Debug)]
pub struct TransactionBenchmarkSettings {
    pub enabled: bool,
    pub iterations: u64,
    pub tps: u32,
    pub concurrency: usize,
    pub preflight_check: bool,
    pub mode: BenchMode,
}

/// Settings of a read-only request benchmark.
#[derive(Debug)]
pub struct RoRequestBenchmarkSettings {
    pub enabled: bool,
    pub iterations: u64,
    pub rps: u32,
    pub accounts_count: u8,
    pub concurrency: usize,
    pub mode: BenchMode,
}

} // verus!
