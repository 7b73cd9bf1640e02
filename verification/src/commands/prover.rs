//! The inputs of a proof, put together out of what the nodes say.

use vstd::prelude::*;

use crate::common::blocks::BlockNumHash;
use crate::common::blocks::BlockNumberOrTag;
use crate::common::fixed_bytes::B256;
use crate::common::text::str_eq;
use crate::proving::host::RiseCfg;
use crate::rpc::cl::OutputResponse;
use crate::rpc::cl::SafeDBClient;

verus! {

/// How many safe heads are asked for at once.
pub const SAFE_DB_BATCH_SIZE: usize = 64;

/// Why there is no proof.
#[derive(Clone, Copy, Debug, PartialEq, Eq, Structural)]
pub enum ProverError {
    /// No finalized L1 block makes the claimed block safe.
    MissingL1Safe,
    /// The L1 chain is not known.
    MissingL1Config,
}

/// The interval in which the L1 block is looked for that makes the claimed block safe: up to the
/// finalized block. `resp` is the output of the claimed block.
pub fn l1_head_range(resp: &OutputResponse) -> (r: Option<(u64, u64)>)
    ensures
        r == Some((resp.block_ref.l1_origin.number, resp.sync_status.finalized_l1.number)),
{
    SafeDBClient::l1_search_range(resp, BlockNumberOrTag::Finalized)
}

/// The L1 head of a proof. `l1_safe` is the L1 block that makes the claimed block safe, if there is
/// one.
pub fn l1_head_of(l1_safe: Option<BlockNumHash>) -> (r: Result<B256, ProverError>)
    ensures
        r == (match l1_safe {
            Some(l1_safe) => Ok::<B256, ProverError>(l1_safe.hash),
            None => Err(ProverError::MissingL1Safe),
        }),
{
    match l1_safe {
        Some(l1_safe) => Ok(l1_safe.hash),
        None => Err(ProverError::MissingL1Safe),
    }
}

/// Puts together what is to be proved.
///
/// `agreed` and `claimed` are the outputs of the first and the last block, and `l1_config` is the
/// configuration of the L1 chain, if that chain is known.
pub fn proof_inputs(
    l1_head: B256,
    agreed: &OutputResponse,
    start_block: u64,
    claimed: &OutputResponse,
    claim_block: u64,
    l2_chain_id: u64,
    rollup_config: Vec<u8>,
    l1_config: Option<Vec<u8>>,
) -> (r: Result<RiseCfg, ProverError>)
    requires
        agreed.block_ref.block_info.number == start_block,
        claimed.block_ref.block_info.number == claim_block,
    ensures
        r == (match l1_config {
            None => Err::<RiseCfg, ProverError>(ProverError::MissingL1Config),
            Some(l1_config) => Ok(
                RiseCfg {
                    l1_head,
                    agreed_l2_head_hash: agreed.block_ref.block_info.hash,
                    agreed_l2_output_root: agreed.output_root,
                    claimed_l2_output_root: claimed.output_root,
                    claimed_l2_block_number: claim_block,
                    l2_chain_id,
                    rollup_config,
                    l1_config,
                },
            ),
        }),
{
    let l1_config = match l1_config {
        Some(l1_config) => l1_config,
        None => {
            return Err(ProverError::MissingL1Config);
        },
    };
    Ok(
        RiseCfg {
            l1_head,
            agreed_l2_head_hash: agreed.block_ref.block_info.hash,
            agreed_l2_output_root: agreed.output_root,
            claimed_l2_output_root: claimed.output_root,
            claimed_l2_block_number: claimed.block_ref.block_info.number,
            l2_chain_id,
            rollup_config,
            l1_config,
        },
    )
}

/// Whether the name of a file does not say what it holds: it has an extension, and another one than
/// that of the format that is written.
pub fn has_misleading_extension(extension: Option<&str>) -> (r: bool)
    ensures
        r == (extension is Some && extension->0@ != "cbor"@),
{
    match extension {
        Some(extension) => !str_eq(extension, "cbor"),
        None => false,
    }
}

} // verus!
