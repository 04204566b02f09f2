//! Candidate blocks: a proposed proto block with its timestamp and the
//! validators it accuses, content-addressed by a 32-byte BLAKE2b digest.

use vstd::prelude::*;

use crate::codec::{spec_words_to_bytes, words_to_bytes};
use crate::crypto::{blake2b256_of, blake2b_hash256, PublicKey};
use crate::Timestamp;

verus! {

/// The payload of a proposed block: the deploys it carries.
#[derive(Clone, PartialEq, Eq, Debug)]
pub struct ProtoBlock {
    pub wasm_deploys: Vec<u64>,
    pub transfers: Vec<u64>,
    pub random_bit: bool,
}

impl ProtoBlock {
    pub fn new(wasm_deploys: Vec<u64>, transfers: Vec<u64>, random_bit: bool) -> (r: ProtoBlock)
        ensures
            r.wasm_deploys == wasm_deploys,
            r.transfers == transfers,
            r.random_bit == random_bit,
    {
        ProtoBlock { wasm_deploys, transfers, random_bit }
    }

    /// The word layout of a proto block's content.
    pub open spec fn spec_words(&self) -> Seq<u64> {
        seq![
            if self.random_bit {
                1u64
            } else {
                0u64
            },
            self.wasm_deploys@.len() as u64,
        ] + self.wasm_deploys@ + seq![self.transfers@.len() as u64] + self.transfers@
    }

    /// The canonical hash of the proto block's content.
    pub open spec fn spec_hash(&self) -> Seq<u8> {
        blake2b256_of(spec_words_to_bytes(self.spec_words()))
    }

    /// Computes the canonical 32-byte hash of the proto block.
    pub fn hash(&self) -> (r: Vec<u8>)
        ensures
            r@ == self.spec_hash(),
            r@.len() == 32,
    {
        let mut ws: Vec<u64> = Vec::new();
        ws.push(if self.random_bit {
            1
        } else {
            0
        });
        ws.push(self.wasm_deploys.len() as u64);
        let n = self.wasm_deploys.len();
        let mut i: usize = 0;
        while i < n
            invariant
                0 <= i <= n,
                n == self.wasm_deploys@.len(),
                ws@ =~= seq![
                    if self.random_bit {
                        1u64
                    } else {
                        0u64
                    },
                    self.wasm_deploys@.len() as u64,
                ] + self.wasm_deploys@.subrange(0, i as int),
            decreases n - i,
        {
            ws.push(self.wasm_deploys[i]);
            proof {
                assert(self.wasm_deploys@.subrange(0, i + 1 as int)
                    =~= self.wasm_deploys@.subrange(0, i as int) + seq![
                    self.wasm_deploys@[i as int],
                ]);
            }
            i = i + 1;
        }
        proof {
            assert(self.wasm_deploys@.subrange(0, n as int) =~= self.wasm_deploys@);
        }
        ws.push(self.transfers.len() as u64);
        let m = self.transfers.len();
        let mut j: usize = 0;
        while j < m
            invariant
                0 <= j <= m,
                m == self.transfers@.len(),
                ws@ =~= seq![
                    if self.random_bit {
                        1u64
                    } else {
                        0u64
                    },
                    self.wasm_deploys@.len() as u64,
                ] + self.wasm_deploys@ + seq![self.transfers@.len() as u64]
                    + self.transfers@.subrange(0, j as int),
            decreases m - j,
        {
            ws.push(self.transfers[j]);
            proof {
                assert(self.transfers@.subrange(0, j + 1 as int) =~= self.transfers@.subrange(
                    0,
                    j as int,
                ) + seq![self.transfers@[j as int]]);
            }
            j = j + 1;
        }
        proof {
            assert(self.transfers@.subrange(0, m as int) =~= self.transfers@);
            assert(ws@ =~= self.spec_words());
        }
        let bytes = words_to_bytes(&ws);
        blake2b_hash256(&bytes)
    }

    /// Duplicates the proto block element-wise.
    pub fn duplicate(&self) -> (r: ProtoBlock)
        ensures
            r.wasm_deploys@ == self.wasm_deploys@,
            r.transfers@ == self.transfers@,
            r.random_bit == self.random_bit,
    {
        ProtoBlock {
            wasm_deploys: dup_u64_vec(&self.wasm_deploys),
            transfers: dup_u64_vec(&self.transfers),
            random_bit: self.random_bit,
        }
    }
}

/// An element-wise copy of a vector of words.
pub fn dup_u64_vec(v: &Vec<u64>) -> (r: Vec<u64>)
    ensures
        r@ == v@,
{
    let n = v.len();
    let mut out: Vec<u64> = Vec::with_capacity(n);
    let mut i: usize = 0;
    while i < n
        invariant
            0 <= i <= n,
            n == v@.len(),
            out@ =~= v@.subrange(0, i as int),
        decreases n - i,
    {
        out.push(v[i]);
        proof {
            assert(v@.subrange(0, i + 1 as int) =~= v@.subrange(0, i as int) + seq![
                v@[i as int],
            ]);
        }
        i = i + 1;
    }
    proof {
        assert(v@.subrange(0, n as int) =~= v@);
    }
    out
}

/// The canonical 32-byte hash of a candidate block.
#[derive(Clone, PartialEq, Eq, Debug)]
pub struct CandidateBlockHash {
    pub digest: Vec<u8>,
}

/// A proposed block: a proto block, the timestamp it was proposed at, and
/// the validators it accuses of equivocation.  Once consensus agrees on it,
/// it becomes a finalized block.
#[derive(Clone, PartialEq, Eq, Debug)]
pub struct CandidateBlock {
    pub proto_block: ProtoBlock,
    pub timestamp: Timestamp,
    pub accusations: Vec<PublicKey>,
}

impl CandidateBlock {
    /// Wraps a proto block, accusing the given validators.
    pub fn new(proto_block: ProtoBlock, timestamp: Timestamp, accusations: Vec<PublicKey>) -> (r:
        CandidateBlock)
        ensures
            r.proto_block == proto_block,
            r.timestamp == timestamp,
            r.accusations == accusations,
    {
        CandidateBlock { proto_block, timestamp, accusations }
    }

    /// The proto block containing the deploys.
    pub fn proto_block(&self) -> (r: &ProtoBlock)
        ensures
            r == self.proto_block,
    {
        &self.proto_block
    }

    /// When the block was proposed: the timestamp of the proposing unit,
    /// and of the final block if it is finalized.
    pub fn timestamp(&self) -> (r: Timestamp)
        ensures
            r == self.timestamp,
    {
        self.timestamp
    }

    /// The validators accused by this block.
    pub fn accusations(&self) -> (r: &Vec<PublicKey>)
        ensures
            r == self.accusations,
    {
        &self.accusations
    }

    /// Consumes the candidate, yielding its proto block.
    pub fn into_proto_block(self) -> (r: ProtoBlock)
        ensures
            r == self.proto_block,
    {
        self.proto_block
    }

    /// The canonical bytes bound by the candidate's hash: the proto block's
    /// digest, then the timestamp and accusations as words.
    pub open spec fn spec_hash_input(&self) -> Seq<u8> {
        self.proto_block.spec_hash() + spec_words_to_bytes(
            seq![self.timestamp.millis, self.accusations@.len() as u64]
                + self.accusations@.map_values(|pk: PublicKey| pk.key),
        )
    }

    /// The canonical hash of the candidate block.
    pub open spec fn spec_hash(&self) -> Seq<u8> {
        blake2b256_of(self.spec_hash_input())
    }

    /// Computes the canonical hash of the candidate block.
    pub fn hash(&self) -> (r: CandidateBlockHash)
        ensures
            r.digest@ == self.spec_hash(),
    {
        let mut input = self.proto_block.hash();
        let mut ws: Vec<u64> = Vec::new();
        ws.push(self.timestamp.millis);
        ws.push(self.accusations.len() as u64);
        let n = self.accusations.len();
        let mut i: usize = 0;
        while i < n
            invariant
                0 <= i <= n,
                n == self.accusations@.len(),
                ws@ =~= seq![self.timestamp.millis, self.accusations@.len() as u64]
                    + self.accusations@.map_values(|pk: PublicKey| pk.key).subrange(
                    0,
                    i as int,
                ),
            decreases n - i,
        {
            ws.push(self.accusations[i].key);
            proof {
                let mapped = self.accusations@.map_values(|pk: PublicKey| pk.key);
                assert(mapped.subrange(0, i + 1 as int) =~= mapped.subrange(0, i as int)
                    + seq![mapped[i as int]]);
            }
            i = i + 1;
        }
        proof {
            let mapped = self.accusations@.map_values(|pk: PublicKey| pk.key);
            assert(mapped.subrange(0, n as int) =~= mapped);
        }
        let mut tail = words_to_bytes(&ws);
        input.append(&mut tail);
        proof {
            assert(input@ =~= self.spec_hash_input());
        }
        CandidateBlockHash { digest: blake2b_hash256(&input) }
    }

    /// Whether the block's payload needs validation before it may be
    /// endorsed: only an empty block needs none.
    pub fn needs_validation(&self) -> (r: bool)
        ensures
            r == (self.proto_block.wasm_deploys@.len() > 0 || self.proto_block.transfers@.len()
                > 0),
    {
        self.proto_block.wasm_deploys.len() > 0 || self.proto_block.transfers.len() > 0
    }
}

} // verus!
