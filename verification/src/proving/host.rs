//! The inputs that the prover and the proof program agree on.

use vstd::prelude::*;

use crate::common::bytes;
use crate::common::bytes::copy_bytes;
use crate::common::bytes::u64_be_bytes;
use crate::common::fixed_bytes::B256;
use crate::witness::preimage_store::PreimageKey;
use crate::witness::preimage_store::PreimageKeyType;

verus! {

/// What is to be proved: that the claimed output follows from the agreed one.
#[derive(Debug, PartialEq, Eq)]
pub struct RiseCfg {
    pub l1_head: B256,
    pub agreed_l2_head_hash: B256,
    pub agreed_l2_output_root: B256,
    pub claimed_l2_output_root: B256,
    pub claimed_l2_block_number: u64,
    pub l2_chain_id: u64,
    /// The rollup configuration, as JSON.
    pub rollup_config: Vec<u8>,
    /// The configuration of L1, as JSON.
    pub l1_config: Vec<u8>,
}

/// The identifiers under which the proof program asks for its inputs.
#[derive(Clone, Copy, Debug, PartialEq, Eq)]
pub struct BootKeys {
    pub l1_head: u64,
    pub l2_output_root: u64,
    pub l2_claim: u64,
    pub l2_claim_block_number: u64,
    pub l2_chain_id: u64,
    pub l2_rollup_config: u64,
    pub l1_config: u64,
}

/// The options of a host that serves the data for a proof.
#[derive(Clone, Copy, Debug, PartialEq, Eq)]
pub struct LegacyCfg {
    pub l1_head: B256,
    pub agreed_l2_head_hash: B256,
    pub agreed_l2_output_root: B256,
    pub claimed_l2_output_root: B256,
    pub claimed_l2_block_number: u64,
    pub native: bool,
    pub server: bool,
    pub l2_chain_id: Option<u64>,
    pub enable_experimental_witness_endpoint: bool,
}

/// The key of a local input.
pub open spec fn local_key(ident: u64) -> Seq<u8> {
    seq![PreimageKeyType::Local.code()] + bytes::be_bytes(ident as nat, 31)
}

/// `entry` holds `value` under the key of `ident`.
pub open spec fn is_entry(entry: (B256, Vec<u8>), ident: u64, value: Seq<u8>) -> bool {
    entry.0@ == local_key(ident) && entry.1@ == value
}

fn local_entry(ident: u64, value: Vec<u8>) -> (r: (B256, Vec<u8>))
    ensures
        is_entry(r, ident, value@),
{
    (PreimageKey::new_local(ident).to_word(), value)
}

impl RiseCfg {
    /// The inputs of the proof program, each under its key, in the order in which they are put into
    /// the store.
    pub fn get_local_key_value_store(&self, keys: &BootKeys) -> (r: Vec<(B256, Vec<u8>)>)
        ensures
            r@.len() == 7,
            is_entry(r@[0], keys.l1_head, self.l1_head@),
            is_entry(r@[1], keys.l2_output_root, self.agreed_l2_output_root@),
            is_entry(r@[2], keys.l2_claim, self.claimed_l2_output_root@),
            is_entry(
                r@[3],
                keys.l2_claim_block_number,
                bytes::be_bytes(self.claimed_l2_block_number as nat, 8),
            ),
            is_entry(r@[4], keys.l2_chain_id, bytes::be_bytes(self.l2_chain_id as nat, 8)),
            is_entry(r@[5], keys.l2_rollup_config, self.rollup_config@),
            is_entry(r@[6], keys.l1_config, self.l1_config@),
    {
        let block_number = u64_be_bytes(self.claimed_l2_block_number);
        let chain_id = u64_be_bytes(self.l2_chain_id);
        let mut store: Vec<(B256, Vec<u8>)> = Vec::new();
        store.push(local_entry(keys.l1_head, copy_bytes(self.l1_head.bytes.as_slice())));
        store.push(
            local_entry(
                keys.l2_output_root,
                copy_bytes(self.agreed_l2_output_root.bytes.as_slice()),
            ),
        );
        store.push(
            local_entry(keys.l2_claim, copy_bytes(self.claimed_l2_output_root.bytes.as_slice())),
        );
        store.push(
            local_entry(keys.l2_claim_block_number, copy_bytes(block_number.as_slice())),
        );
        store.push(local_entry(keys.l2_chain_id, copy_bytes(chain_id.as_slice())));
        store.push(local_entry(keys.l2_rollup_config, copy_bytes(self.rollup_config.as_slice())));
        store.push(local_entry(keys.l1_config, copy_bytes(self.l1_config.as_slice())));
        store
    }

    /// The options of a host that serves this proof's data, and nothing but that.
    pub fn get_legacy_cfg(&self) -> (r: LegacyCfg)
        ensures
            r == (LegacyCfg {
                l1_head: self.l1_head,
                agreed_l2_head_hash: self.agreed_l2_head_hash,
                agreed_l2_output_root: self.agreed_l2_output_root,
                claimed_l2_output_root: self.claimed_l2_output_root,
                claimed_l2_block_number: self.claimed_l2_block_number,
                native: false,
                server: true,
                l2_chain_id: Some(self.l2_chain_id),
                enable_experimental_witness_endpoint: true,
            }),
    {
        LegacyCfg {
            l1_head: self.l1_head,
            agreed_l2_head_hash: self.agreed_l2_head_hash,
            agreed_l2_output_root: self.agreed_l2_output_root,
            claimed_l2_output_root: self.claimed_l2_output_root,
            claimed_l2_block_number: self.claimed_l2_block_number,
            native: false,
            server: true,
            l2_chain_id: Some(self.l2_chain_id),
            enable_experimental_witness_endpoint: true,
        }
    }
}

/// Inputs with different identifiers have different keys, so none of them hides another.
pub proof fn local_key_is_injective(a: u64, b: u64)
    requires
        local_key(a) == local_key(b),
    ensures
        a == b,
{
    bytes::be_bytes_len(a as nat, 31);
    bytes::be_bytes_len(b as nat, 31);
    assert(local_key(a).skip(1) =~= bytes::be_bytes(a as nat, 31));
    assert(local_key(b).skip(1) =~= bytes::be_bytes(b as nat, 31));
    assert(bytes::byte_range(31) > u64::MAX) by {
        reveal_with_fuel(bytes::byte_range, 32);
    }
    bytes::be_bytes_injective(a as nat, b as nat, 31);
}

/// What a hint asks for.
#[derive(Clone, Copy, Debug, PartialEq, Eq, Structural)]
pub enum HintKind {
    /// The data of an EigenDA certificate.
    EigenDACert,
    /// Anything else.
    Original,
}

/// Who answers a hint.
#[derive(Clone, Copy, Debug, PartialEq, Eq, Structural)]
pub enum HintRoute {
    /// The EigenDA proxy.
    EigenDA,
    /// The host of this chain, with the options of `get_legacy_cfg`.
    SingleChain,
}

/// Answers the hints of the proof program.
#[derive(Clone, Copy, Debug, PartialEq, Eq)]
pub struct RiseHintHandler;

impl RiseHintHandler {
    /// Decides who answers a hint.
    pub fn route(&self, kind: HintKind) -> (r: HintRoute)
        ensures
            r == (match kind {
                HintKind::EigenDACert => HintRoute::EigenDA,
                HintKind::Original => HintRoute::SingleChain,
            }),
    {
        match kind {
            HintKind::EigenDACert => HintRoute::EigenDA,
            HintKind::Original => HintRoute::SingleChain,
        }
    }
}

} // verus!
