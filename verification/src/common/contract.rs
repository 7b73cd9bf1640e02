//! The values that the dispute game contracts hold.

use alloy_sol_types::SolValue;
use vstd::prelude::*;

use crate::common::bytes;
use crate::common::fixed_bytes::Address;
use crate::common::fixed_bytes::B256;

verus! {

/// The current status of a dispute game.
#[allow(non_camel_case_types)]
#[derive(Clone, Copy, Debug, PartialEq, Eq, Structural)]
pub enum GameStatus {
    IN_PROGRESS,
    CHALLENGER_WINS,
    DEFENDER_WINS,
}

/// The current status of the claim of a dispute game.
#[derive(Clone, Copy, Debug, PartialEq, Eq, Structural)]
pub enum ProposalStatus {
    Unchallenged,
    Challenged,
    UnchallengedAndValidProofProvided,
    ChallengedAndValidProofProvided,
    Resolved,
}

/// The data associated with the claim of a dispute game.
#[derive(Clone, Copy, Debug)]
pub struct ClaimData {
    pub parent_index: u32,
    pub countered_by: Address,
    pub prover: Address,
    pub claim: B256,
    pub status: ProposalStatus,
    pub deadline: u64,
}

impl PartialEq for ClaimData {
    fn eq(&self, other: &Self) -> (r: bool) {
        self.parent_index == other.parent_index && self.countered_by == other.countered_by
            && self.prover == other.prover && self.claim == other.claim && self.status
            == other.status && self.deadline == other.deadline
    }
}

impl vstd::std_specs::cmp::PartialEqSpecImpl for ClaimData {
    open spec fn obeys_eq_spec() -> bool {
        true
    }

    open spec fn eq_spec(&self, other: &Self) -> bool {
        *self == *other
    }
}

impl Eq for ClaimData {

}

impl ClaimData {
    /// Claim data in which nothing is set.
    pub open spec fn is_unset(self) -> bool {
        &&& self.parent_index == 0
        &&& self.countered_by.is_zero()
        &&& self.prover.is_zero()
        &&& self.claim.is_zero()
        &&& self.status == ProposalStatus::Unchallenged
        &&& self.deadline == 0
    }
}

impl Default for ClaimData {
    fn default() -> (r: Self)
        ensures
            r.is_unset(),
    {
        ClaimData {
            parent_index: 0,
            countered_by: Address::zero(),
            prover: Address::zero(),
            claim: B256::zero(),
            status: ProposalStatus::Unchallenged,
            deadline: 0,
        }
    }
}

/// The parts of an L2 output, version 0.
#[derive(Clone, Copy, Debug)]
pub struct L2Output {
    pub zero: u64,
    pub l2_state_root: B256,
    pub l2_storage_hash: B256,
    pub l2_claim_hash: B256,
}

impl L2Output {
    /// The ABI encoding: four words of 32 bytes.
    pub open spec fn encoding(self) -> Seq<u8> {
        bytes::be_bytes(self.zero as nat, 32) + self.l2_state_root@ + self.l2_storage_hash@
            + self.l2_claim_hash@
    }

    /// `alloy_sol_types::SolValue::abi_encode` of the struct's fields: a tuple of four static
    /// types, each of them a word of 32 bytes, one after the other. The number stands right-aligned
    /// in its word, most significant byte first.
    #[verifier::external_body]
    pub(crate) fn abi_encode(&self) -> (r: Vec<u8>)
        ensures
            r@ == self.encoding(),
    {
        (
            self.zero,
            alloy_primitives::B256::from(self.l2_state_root.bytes),
            alloy_primitives::B256::from(self.l2_storage_hash.bytes),
            alloy_primitives::B256::from(self.l2_claim_hash.bytes),
        ).abi_encode()
    }
}

/// The extra data of a game: the claimed block in 32 bytes, the parent's index in 4.
pub open spec fn extra_data(claim_block: u64, parent_index: u32) -> Seq<u8> {
    bytes::be_bytes(claim_block as nat, 32) + bytes::be_bytes(parent_index as nat, 4)
}

/// `alloy_sol_types::SolValue::abi_encode_packed` of a `uint256` and a `uint32`: their bytes, most
/// significant byte first, one after the other without padding.
#[verifier::external_body]
pub(crate) fn encode_extra_data(claim_block: u64, parent_index: u32) -> (r: Vec<u8>)
    ensures
        r@ == extra_data(claim_block, parent_index),
{
    (alloy_primitives::U256::from(claim_block), parent_index).abi_encode_packed()
}

/// Games with the same extra data claim the same block on top of the same parent.
pub proof fn extra_data_is_injective(block_a: u64, parent_a: u32, block_b: u64, parent_b: u32)
    requires
        extra_data(block_a, parent_a) == extra_data(block_b, parent_b),
    ensures
        block_a == block_b,
        parent_a == parent_b,
{
    let (a, b) = (extra_data(block_a, parent_a), extra_data(block_b, parent_b));
    bytes::be_bytes_len(block_a as nat, 32);
    bytes::be_bytes_len(block_b as nat, 32);
    bytes::be_bytes_len(parent_a as nat, 4);
    bytes::be_bytes_len(parent_b as nat, 4);
    assert(a.take(32) =~= bytes::be_bytes(block_a as nat, 32));
    assert(b.take(32) =~= bytes::be_bytes(block_b as nat, 32));
    assert(a.skip(32) =~= bytes::be_bytes(parent_a as nat, 4));
    assert(b.skip(32) =~= bytes::be_bytes(parent_b as nat, 4));
    bytes::byte_range_holds_integers();
    bytes::be_bytes_injective(block_a as nat, block_b as nat, 32);
    bytes::be_bytes_injective(parent_a as nat, parent_b as nat, 4);
}

/// Outputs with the same encoding are the same output.
pub proof fn output_encoding_is_injective(a: L2Output, b: L2Output)
    requires
        a.encoding() == b.encoding(),
    ensures
        a == b,
{
    bytes::be_bytes_len(a.zero as nat, 32);
    bytes::be_bytes_len(b.zero as nat, 32);
    let (x, y) = (a.encoding(), b.encoding());
    assert(x.subrange(0, 32) =~= bytes::be_bytes(a.zero as nat, 32));
    assert(y.subrange(0, 32) =~= bytes::be_bytes(b.zero as nat, 32));
    assert(x.subrange(32, 64) =~= a.l2_state_root@);
    assert(y.subrange(32, 64) =~= b.l2_state_root@);
    assert(x.subrange(64, 96) =~= a.l2_storage_hash@);
    assert(y.subrange(64, 96) =~= b.l2_storage_hash@);
    assert(x.subrange(96, 128) =~= a.l2_claim_hash@);
    assert(y.subrange(96, 128) =~= b.l2_claim_hash@);
    bytes::byte_range_holds_integers();
    bytes::be_bytes_injective(a.zero as nat, b.zero as nat, 32);
    B256::same_view(a.l2_state_root, b.l2_state_root);
    B256::same_view(a.l2_storage_hash, b.l2_storage_hash);
    B256::same_view(a.l2_claim_hash, b.l2_claim_hash);
}

} // verus!
