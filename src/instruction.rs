use vstd::prelude::*;

use crate::types::Address;

verus! {

/// The instructions of the benchmark program.
#[derive(Clone, Copy, Debug, PartialEq, Eq)]
pub enum Instruction {
    /// Commits a list of accounts to the base chain.
    CommitAccounts { id: u64 },
    /// Creates a benchmark account of `space` bytes.
    InitAccount { space: u32, seed: u8, bump: u8 },
    /// Delegates a benchmark account to the ephemeral validator.
    Delegate { seed: u8 },
    /// Fills an account's data with the request id.
    SimpleByteSet { id: u64 },
    /// Runs `iters` rounds of SHA-256 seeded by `init`.
    ExpensiveHashCompute { id: u64, init: Address, iters: u32 },
    /// Writes the id and the sum of the other accounts' sizes to an account.
    MultiAccountRead { id: u64 },
    /// Copies one account's data into another.
    AccountDataCopy { id: u64 },
    /// Reads several accounts.
    ReadAccountsData { id: u64 },
}

/// The `n` low bytes of `v`, least significant first.
pub open spec fn le_bytes(v: nat, n: nat) -> Seq<u8>
    decreases n,
{
    if n == 0 {
        Seq::empty()
    } else {
        seq![(v % 256) as u8] + le_bytes(v / 256, (n - 1) as nat)
    }
}

/// The instruction data of the program: a 4-byte little-endian variant index
/// followed by the fields in order, integers little-endian, addresses as their
/// 32 bytes.
pub open spec fn encoded(ix: Instruction) -> Seq<u8> {
    match ix {
        Instruction::CommitAccounts { id } => le_bytes(0, 4) + le_bytes(id as nat, 8),
        Instruction::InitAccount { space, seed, bump } => le_bytes(1, 4) + le_bytes(space as nat, 4)
            + seq![seed, bump],
        Instruction::Delegate { seed } => le_bytes(2, 4) + seq![seed],
        Instruction::SimpleByteSet { id } => le_bytes(3, 4) + le_bytes(id as nat, 8),
        Instruction::ExpensiveHashCompute { id, init, iters } => le_bytes(4, 4) + le_bytes(
            id as nat,
            8,
        ) + init.bytes@ + le_bytes(iters as nat, 4),
        Instruction::MultiAccountRead { id } => le_bytes(5, 4) + le_bytes(id as nat, 8),
        Instruction::AccountDataCopy { id } => le_bytes(6, 4) + le_bytes(id as nat, 8),
        Instruction::ReadAccountsData { id } => le_bytes(7, 4) + le_bytes(id as nat, 8),
    }
}

proof fn lemma_le_bytes_len(v: nat, n: nat)
    ensures
        le_bytes(v, n).len() == n,
    decreases n,
{
    if n > 0 {
        lemma_le_bytes_len(v / 256, (n - 1) as nat);
    }
}

/// Instruction data is at most 48 bytes long.
pub proof fn lemma_encoded_len(ix: Instruction)
    ensures
        encoded(ix).len() <= 48,
{
    lemma_le_bytes_len(0, 4);
    lemma_le_bytes_len(1, 4);
    lemma_le_bytes_len(2, 4);
    lemma_le_bytes_len(3, 4);
    lemma_le_bytes_len(4, 4);
    lemma_le_bytes_len(5, 4);
    lemma_le_bytes_len(6, 4);
    lemma_le_bytes_len(7, 4);
    match ix {
        Instruction::CommitAccounts { id } => lemma_le_bytes_len(id as nat, 8),
        Instruction::InitAccount { space, .. } => lemma_le_bytes_len(space as nat, 4),
        Instruction::SimpleByteSet { id } => lemma_le_bytes_len(id as nat, 8),
        Instruction::ExpensiveHashCompute { id, iters, .. } => {
            lemma_le_bytes_len(id as nat, 8);
            lemma_le_bytes_len(iters as nat, 4);
        },
        Instruction::MultiAccountRead { id } => lemma_le_bytes_len(id as nat, 8),
        Instruction::AccountDataCopy { id } => lemma_le_bytes_len(id as nat, 8),
        Instruction::ReadAccountsData { id } => lemma_le_bytes_len(id as nat, 8),
        _ => {},
    }
}

fn push_le(out: &mut Vec<u8>, v: u64, n: usize)
    requires
        n <= 8,
    ensures
        final(out)@ == old(out)@ + le_bytes(v as nat, n as nat),
{
    let mut i: usize = 0;
    let mut rest: u64 = v;
    while i < n
        invariant
            i <= n,
            out@ + le_bytes(rest as nat, (n - i) as nat) == old(out)@ + le_bytes(v as nat, n as nat),
        decreases n - i,
    {
        let ghost before = out@;
        out.push((rest % 256) as u8);
        proof {
            assert(le_bytes(rest as nat, (n - i) as nat) == seq![(rest % 256) as u8] + le_bytes(
                (rest / 256) as nat,
                (n - i - 1) as nat,
            ));
            assert(out@ + le_bytes((rest / 256) as nat, (n - i - 1) as nat) =~= before + le_bytes(
                rest as nat,
                (n - i) as nat,
            ));
        }
        rest = rest / 256;
        i = i + 1;
    }
    assert(le_bytes(rest as nat, 0) =~= Seq::<u8>::empty());
    assert(out@ + Seq::<u8>::empty() =~= out@);
}

impl Instruction {
    /// The instruction data sent to the program.
    pub fn encode(&self) -> (r: Vec<u8>)
        ensures
            r@ == encoded(*self),
    {
        let mut out: Vec<u8> = Vec::new();
        match *self {
            Instruction::CommitAccounts { id } => {
                push_le(&mut out, 0, 4);
                push_le(&mut out, id, 8);
            },
            Instruction::InitAccount { space, seed, bump } => {
                push_le(&mut out, 1, 4);
                push_le(&mut out, space as u64, 4);
                out.push(seed);
                out.push(bump);
            },
            Instruction::Delegate { seed } => {
                push_le(&mut out, 2, 4);
                out.push(seed);
            },
            Instruction::SimpleByteSet { id } => {
                push_le(&mut out, 3, 4);
                push_le(&mut out, id, 8);
            },
            Instruction::ExpensiveHashCompute { id, init, iters } => {
                push_le(&mut out, 4, 4);
                push_le(&mut out, id, 8);
                let mut i: usize = 0;
                let ghost start = out@;
                while i < 32
                    invariant
                        i <= 32,
                        out@ == start + init.bytes@.subrange(0, i as int),
                    decreases 32 - i,
                {
                    out.push(init.bytes[i]);
                    assert(out@ =~= start + init.bytes@.subrange(0, i as int + 1));
                    i = i + 1;
                }
                assert(init.bytes@.subrange(0, 32) =~= init.bytes@);
                push_le(&mut out, iters as u64, 4);
            },
            Instruction::MultiAccountRead { id } => {
                push_le(&mut out, 5, 4);
                push_le(&mut out, id, 8);
            },
            Instruction::AccountDataCopy { id } => {
                push_le(&mut out, 6, 4);
                push_le(&mut out, id, 8);
            },
            Instruction::ReadAccountsData { id } => {
                push_le(&mut out, 7, 4);
                push_le(&mut out, id, 8);
            },
        }
        assert(out@ =~= encoded(*self));
        out
    }
}

/// Copies `data` into `target` at `*index` and moves the index past it.
pub fn prepare_buffer(index: &mut usize, target: &mut Vec<u8>, data: &[u8])
    requires
        *old(index) + data@.len() <= old(target)@.len(),
    ensures
        *final(index) == *old(index) + data@.len(),
        final(target)@ == old(target)@.subrange(0, *old(index) as int) + data@
            + old(target)@.subrange(*old(index) + data@.len(), old(target)@.len() as int),
{
    let start = *index;
    let n = target.len();
    let mut k: usize = 0;
    while k < data.len()
        invariant
            n == target@.len(),
            start + data@.len() <= target@.len(),
            target@.len() == old(target)@.len(),
            k <= data@.len(),
            forall|j: int| 0 <= j < start ==> target@[j] == old(target)@[j],
            forall|j: int| start <= j < start + k ==> target@[j] == data@[j - start],
            forall|j: int| start + data@.len() <= j < target@.len() ==> target@[j] == old(target)@[j],
        decreases data@.len() - k,
    {
        target.set(start + k, data[k]);
        k = k + 1;
    }
    *index = start + data.len();
    assert(target@ =~= old(target)@.subrange(0, start as int) + data@ + old(target)@.subrange(
        start + data@.len(),
        old(target)@.len() as int,
    ));
}

} // verus!
