//! What a proof is made of: the inputs that are put together and handed to the proof program.

use vstd::arithmetic::power::pow;
use vstd::prelude::*;

use crate::commands::propose::ProposeArgs;
use crate::commands::prover::has_misleading_extension;
use crate::commands::prover::l1_head_of;
use crate::commands::prover::l1_head_range;
use crate::commands::prover::proof_inputs;
use crate::commands::prover::ProverError;
use crate::common::blocks::BlockNumHash;
use crate::common::bytes;
use crate::common::fixed_bytes::B256;
use crate::components::game_creator::GameRequest;
use crate::proving::host;
use crate::proving::host::BootKeys;
use crate::proving::host::HintKind;
use crate::proving::host::HintRoute;
use crate::proving::host::LegacyCfg;
use crate::proving::host::RiseCfg;
use crate::proving::host::RiseHintHandler;
use crate::rpc::cl::OutputResponse;

verus! {

/// A number in `len` bytes, the heaviest byte first.
pub open spec fn is_spelled(value: u64, len: int, raw: Seq<u8>) -> bool {
    &&& raw.len() == len
    &&& forall|i: int|
        0 <= i < len ==> #[trigger] raw[i] == (value as int / pow(256, (len - 1 - i) as nat)) % 256
}

proof fn be_bytes_are_spelled(value: u64, len: nat)
    ensures
        is_spelled(value, len as int, bytes::be_bytes(value as nat, len)),
{
    let raw = bytes::be_bytes(value as nat, len);
    bytes::be_bytes_len(value as nat, len);
    assert forall|i: int| 0 <= i < len implies #[trigger] raw[i] == (value as int / pow(
        256,
        (len - 1 - i) as nat,
    )) % 256 by {
        bytes::be_bytes_place(value as nat, len, i);
    }
}

/// The key of a local input is the byte 1, then the identifier in 31 bytes.
pub open spec fn is_local_key(key: B256, ident: u64) -> bool {
    key.bytes@[0] == 1 && is_spelled(ident, 31, key.bytes@.skip(1))
}

proof fn local_keys_are_spelled(key: B256, ident: u64)
    requires
        key@ == host::local_key(ident),
    ensures
        is_local_key(key, ident),
{
    be_bytes_are_spelled(ident, 31);
    assert(key.bytes@ == key@);
    assert(key@.skip(1) =~= bytes::be_bytes(ident as nat, 31));
}

/// The proof program finds each input under its own identifier: the L1 head, the agreed output root,
/// the claimed output root, the claimed block and the chain in 8 bytes each, and the two
/// configurations. There is nothing else.
pub proof fn inputs_are_found_under_their_keys(
    cfg: &RiseCfg,
    keys: &BootKeys,
    store: Vec<(B256, Vec<u8>)>,
)
    requires
        call_ensures(RiseCfg::get_local_key_value_store, (cfg, keys), store),
    ensures
        store@.len() == 7,
        is_local_key(store@[0].0, keys.l1_head) && store@[0].1@ == cfg.l1_head.bytes@,
        is_local_key(store@[1].0, keys.l2_output_root) && store@[1].1@
            == cfg.agreed_l2_output_root.bytes@,
        is_local_key(store@[2].0, keys.l2_claim) && store@[2].1@
            == cfg.claimed_l2_output_root.bytes@,
        is_local_key(store@[3].0, keys.l2_claim_block_number) && is_spelled(
            cfg.claimed_l2_block_number,
            8,
            store@[3].1@,
        ),
        is_local_key(store@[4].0, keys.l2_chain_id) && is_spelled(
            cfg.l2_chain_id,
            8,
            store@[4].1@,
        ),
        is_local_key(store@[5].0, keys.l2_rollup_config) && store@[5].1@ == cfg.rollup_config@,
        is_local_key(store@[6].0, keys.l1_config) && store@[6].1@ == cfg.l1_config@,
{
    local_keys_are_spelled(store@[0].0, keys.l1_head);
    local_keys_are_spelled(store@[1].0, keys.l2_output_root);
    local_keys_are_spelled(store@[2].0, keys.l2_claim);
    local_keys_are_spelled(store@[3].0, keys.l2_claim_block_number);
    local_keys_are_spelled(store@[4].0, keys.l2_chain_id);
    local_keys_are_spelled(store@[5].0, keys.l2_rollup_config);
    local_keys_are_spelled(store@[6].0, keys.l1_config);
    be_bytes_are_spelled(cfg.claimed_l2_block_number, 8);
    be_bytes_are_spelled(cfg.l2_chain_id, 8);
}

/// The host that serves the data of a proof is told what is to be proved, and of which chain. It
/// runs as a server, not in native mode, and may use the witness endpoint.
pub proof fn host_serves_same_claim(cfg: &RiseCfg, legacy: LegacyCfg)
    requires
        call_ensures(RiseCfg::get_legacy_cfg, (cfg,), legacy),
    ensures
        legacy.l1_head == cfg.l1_head,
        legacy.agreed_l2_head_hash == cfg.agreed_l2_head_hash,
        legacy.agreed_l2_output_root == cfg.agreed_l2_output_root,
        legacy.claimed_l2_output_root == cfg.claimed_l2_output_root,
        legacy.claimed_l2_block_number == cfg.claimed_l2_block_number,
        legacy.l2_chain_id == Some(cfg.l2_chain_id),
        legacy.server,
        !legacy.native,
        legacy.enable_experimental_witness_endpoint,
{
}

/// Only hints about EigenDA certificates go to EigenDA.
pub proof fn certificates_are_routed_to_eigenda(
    handler: &RiseHintHandler,
    kind: HintKind,
    route: HintRoute,
)
    requires
        call_ensures(RiseHintHandler::route, (handler, kind), route),
    ensures
        route is EigenDA <==> kind is EigenDACert,
        route is SingleChain <==> kind is Original,
{
}

/// A proof leads from the output of the agreed block to that of the claimed block, with the L1 head
/// up to which data counts. It cannot be made for an L1 chain that is not known.
pub proof fn proof_leads_from_agreed_to_claimed(
    l1_head: B256,
    agreed: &OutputResponse,
    start_block: u64,
    claimed: &OutputResponse,
    claim_block: u64,
    l2_chain_id: u64,
    rollup_config: Vec<u8>,
    l1_config: Option<Vec<u8>>,
    r: Result<RiseCfg, ProverError>,
)
    requires
        call_ensures(
            proof_inputs,
            (
                l1_head,
                agreed,
                start_block,
                claimed,
                claim_block,
                l2_chain_id,
                rollup_config,
                l1_config,
            ),
            r,
        ),
    ensures
        r is Err <==> l1_config is None,
        r matches Err(e) ==> e == ProverError::MissingL1Config,
        r matches Ok(cfg) ==> {
            &&& cfg.l1_head == l1_head
            &&& cfg.agreed_l2_head_hash == agreed.block_ref.block_info.hash
            &&& cfg.agreed_l2_output_root == agreed.output_root
            &&& cfg.claimed_l2_output_root == claimed.output_root
            &&& cfg.claimed_l2_block_number == claim_block
            &&& cfg.l2_chain_id == l2_chain_id
            &&& cfg.rollup_config@ == rollup_config@
            &&& Some(cfg.l1_config) == l1_config
        },
{
}

/// The L1 head of a proof is looked for from the claimed block's L1 origin to the finalized block,
/// and is the block that makes the claimed block safe.
pub proof fn l1_head_makes_claim_safe(
    resp: &OutputResponse,
    range: Option<(u64, u64)>,
    l1_safe: Option<BlockNumHash>,
    head: Result<B256, ProverError>,
)
    requires
        call_ensures(l1_head_range, (resp,), range),
        call_ensures(l1_head_of, (l1_safe,), head),
    ensures
        range is Some && (range->0).0 == resp.block_ref.l1_origin.number && (range->0).1
            == resp.sync_status.finalized_l1.number,
        head is Ok <==> l1_safe is Some,
        head matches Ok(hash) ==> hash == l1_safe->0.hash,
        head matches Err(e) ==> e == ProverError::MissingL1Safe,
{
}

/// A game that is proposed by hand claims the block and the output root that are given, and the
/// node's output root only if none is. It builds on the given game; without one, the parent's index
/// is all ones.
pub proof fn proposal_is_as_given(args: &ProposeArgs, fetched: B256, asks: bool, r: GameRequest)
    requires
        call_ensures(ProposeArgs::needs_output_root, (args,), asks),
        call_ensures(ProposeArgs::request, (args, fetched), r),
    ensures
        asks <==> args.output_root is None,
        r.claim_block == args.claim_block,
        args.output_root is Some ==> Some(r.output_root) == args.output_root,
        args.output_root is None ==> r.output_root == fetched,
        is_spelled(args.claim_block, 32, r.extra_data@.take(32)),
        args.parent_game_index is Some ==> is_spelled(
            args.parent_game_index->0 as u64,
            4,
            r.extra_data@.skip(32),
        ),
        args.parent_game_index is None ==> r.extra_data@.skip(32) == seq![255u8, 255, 255, 255],
{
    let parent = args.parent();
    be_bytes_are_spelled(args.claim_block, 32);
    be_bytes_are_spelled(parent as u64, 4);
    bytes::be_bytes_len(args.claim_block as nat, 32);
    assert(r.extra_data@.take(32) =~= bytes::be_bytes(args.claim_block as nat, 32));
    assert(r.extra_data@.skip(32) =~= bytes::be_bytes(parent as nat, 4));
    if args.parent_game_index is None {
        reveal_with_fuel(bytes::be_bytes, 5);
        assert(bytes::be_bytes(0xffff_ffff, 4) =~= seq![255u8, 255, 255, 255]);
    }
}

/// The name of a file misleads if it has an extension other than `cbor`.
pub proof fn extension_says_cbor(extension: Option<&str>, misleads: bool)
    requires
        call_ensures(has_misleading_extension, (extension,), misleads),
    ensures
        extension is None ==> !misleads,
        extension is Some ==> (misleads <==> extension->0@ != seq!['c', 'b', 'o', 'r']),
{
    reveal_strlit("cbor");
    assert("cbor"@ =~= seq!['c', 'b', 'o', 'r']);
}

} // verus!
