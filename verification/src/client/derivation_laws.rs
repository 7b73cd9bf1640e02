//! How far blocks are derived and what becomes of them, event by event.

use vstd::prelude::*;

use crate::client::advance;
use crate::client::advance::keep_deposits;
use crate::client::advance::output_preimage_key;
use crate::client::advance::safe_head_hash;
use crate::client::advance::Attributes;
use crate::client::advance::Derivation;
use crate::client::advance::DriverAction;
use crate::client::advance::DriverEvent;
use crate::client::advance::DriverFailure;
use crate::client::advance::DriverState;
use crate::client::advance::Genesis;
use crate::client::hardforks::HardForks;
use crate::common::blocks::BlockInfo;
use crate::common::blocks::L2BlockInfo;
use crate::common::fixed_bytes::B256;
use crate::common::hashing;
use crate::rpc::el::Header;
use crate::witness::preimage_store::PreimageKey;
use crate::witness::preimage_store::PreimageKeyType;

verus! {

/// With a target, blocks are derived as long as the safe head lies below it, and not any longer:
/// then the safe head is handed back with its output root. Without a target, there is always
/// another block to derive.
pub proof fn derives_up_to_target(
    derivation: &mut Derivation,
    l2_safe_head: L2BlockInfo,
    output_root: B256,
    forks: &HardForks,
    genesis: &Genesis,
    action: DriverAction,
)
    requires
        call_ensures(
            Derivation::step,
            (
                derivation,
                DriverEvent::SafeHead { l2_safe_head, output_root },
                forks,
                genesis,
            ),
            action,
        ),
        old(derivation).state is AtTip,
    ensures
        final(derivation).target == old(derivation).target,
        old(derivation).target matches Some(target) && l2_safe_head.block_info.number >= target
            ==> action == (DriverAction::Finish { l2_safe_head, output_root })
            && final(derivation).state is Stopped,
        old(derivation).target matches Some(target) && l2_safe_head.block_info.number < target
            ==> action is ProducePayload && final(derivation).state == (DriverState::Deriving {
            safe_head: l2_safe_head.block_info.number,
        }),
        old(derivation).target is None ==> action is ProducePayload && final(derivation).state == (
        DriverState::Deriving { safe_head: l2_safe_head.block_info.number }),
{
}

/// A derivation that finishes has a target, and the block that it hands back does not lie below it.
pub proof fn finished_block_reaches_target(
    derivation: &mut Derivation,
    event: DriverEvent,
    forks: &HardForks,
    genesis: &Genesis,
    l2_safe_head: L2BlockInfo,
    output_root: B256,
)
    requires
        call_ensures(
            Derivation::step,
            (derivation, event, forks, genesis),
            DriverAction::Finish { l2_safe_head, output_root },
        ),
    ensures
        old(derivation).target matches Some(target) && target <= l2_safe_head.block_info.number,
        event == (DriverEvent::SafeHead { l2_safe_head, output_root }),
        final(derivation).state is Stopped,
{
}

/// When there is no more data, a derivation with a target makes the block that it stands at its
/// target, and one without a target stays without one. It goes on only while the number of that
/// block lies below the Interop time, or there is none.
pub proof fn end_of_data_ends_derivation(
    derivation: &mut Derivation,
    safe_head: u64,
    forks: &HardForks,
    genesis: &Genesis,
    action: DriverAction,
)
    requires
        call_ensures(
            Derivation::step,
            (derivation, DriverEvent::EndOfSource, forks, genesis),
            action,
        ),
        old(derivation).state == (DriverState::Deriving { safe_head }),
    ensures
        old(derivation).target is Some ==> final(derivation).target == Some(safe_head),
        old(derivation).target is None ==> final(derivation).target is None,
        forks.interop_time matches Some(time) && time <= safe_head ==> action
            == DriverAction::Fail(DriverFailure::EndOfSource) && final(derivation).state
            is Stopped,
        forks.interop_time is None || safe_head < forks.interop_time->0 ==> action is ReadSafeHead
            && final(derivation).state is AtTip,
{
}

/// The attributes that the pipeline has produced are the ones that are executed.
pub proof fn produced_payload_is_executed(
    derivation: &mut Derivation,
    attributes: Attributes,
    safe_head: u64,
    forks: &HardForks,
    genesis: &Genesis,
    action: DriverAction,
)
    requires
        call_ensures(
            Derivation::step,
            (derivation, DriverEvent::Payload(attributes), forks, genesis),
            action,
        ),
        old(derivation).state == (DriverState::Deriving { safe_head }),
    ensures
        action is ExecutePayload,
        final(derivation).state == (DriverState::Executing { attributes }),
        final(derivation).target == old(derivation).target,
{
}

/// One of the upgrades from Holocene on has come at `timestamp`.
pub open spec fn holocene_has_come(forks: HardForks, timestamp: u64) -> bool {
    ||| forks.holocene_time matches Some(time) && time <= timestamp
    ||| forks.isthmus_time matches Some(time) && time <= timestamp
    ||| forks.jovian_time matches Some(time) && time <= timestamp
    ||| forks.interop_time matches Some(time) && time <= timestamp
}

/// `kept` holds the deposits of `txs`, each of which starts with the byte `7e`, and nothing else, in
/// their order. `places` says where they stand.
pub open spec fn are_deposits_at(
    txs: Seq<Seq<u8>>,
    kept: Seq<Seq<u8>>,
    places: Seq<int>,
) -> bool {
    &&& places.len() == kept.len()
    &&& forall|i: int|
        0 <= i < places.len() ==> 0 <= #[trigger] places[i] < txs.len() && txs[places[i]]
            == kept[i]
    &&& forall|i: int, j: int|
        0 <= i < j < places.len() ==> #[trigger] places[i] < #[trigger] places[j]
    &&& forall|k: int|
        0 <= k < txs.len() ==> ((#[trigger] txs[k]).len() > 0 && txs[k][0] == 0x7e <==> places.contains(
            k,
        ))
}

proof fn deposits_stand_in_order(txs: Seq<Seq<u8>>) -> (places: Seq<int>)
    ensures
        are_deposits_at(txs, advance::deposits(txs), places),
    decreases txs.len(),
{
    reveal(Seq::filter);
    if txs.len() == 0 {
        Seq::empty()
    } else {
        let before = txs.drop_last();
        let places = deposits_stand_in_order(before);
        let last = txs.len() - 1;
        let after = if advance::is_deposit(txs.last()) {
            places.push(last)
        } else {
            places
        };
        assert forall|k: int| 0 <= k < txs.len() implies ((#[trigger] txs[k]).len() > 0
            && txs[k][0] == 0x7e <==> after.contains(k)) by {
            if k < last {
                assert(before[k] == txs[k]);
                if places.contains(k) {
                    let i = choose|i: int| 0 <= i < places.len() && places[i] == k;
                    assert(after[i] == k);
                }
                if after.contains(k) {
                    let i = choose|i: int| 0 <= i < after.len() && after[i] == k;
                    assert(places[i] == k);
                }
            } else {
                if advance::is_deposit(txs.last()) {
                    assert(after[places.len() as int] == k);
                }
                if places.contains(k) {
                    let i = choose|i: int| 0 <= i < places.len() && places[i] == k;
                    assert(0 <= places[i] < before.len());
                }
            }
        }
        assert forall|i: int| 0 <= i < after.len() implies 0 <= #[trigger] after[i] < txs.len()
            && txs[after[i]] == advance::deposits(txs)[i] by {
            if i < places.len() {
                assert(before[places[i]] == txs[places[i]]);
            }
        }
        after
    }
}

/// The attributes that replace others hold the same time and the others' deposits, in their order,
/// and no other transaction.
pub open spec fn replaces(attributes: Attributes, by: Attributes) -> bool {
    &&& by.timestamp == attributes.timestamp
    &&& attributes.transactions is None ==> by.transactions is None
    &&& attributes.transactions is Some ==> by.transactions is Some && exists|places: Seq<int>|
        are_deposits_at(
            advance::all_bytes(attributes.transactions->0@),
            advance::all_bytes(by.transactions->0@),
            places,
        )
}

proof fn stripped_attributes_replace(attributes: Attributes, by: Attributes)
    requires
        by@ == attributes@.deposits_only(),
    ensures
        replaces(attributes, by),
{
    if let Some(txs) = attributes.transactions {
        let all = advance::all_bytes(txs@);
        let places = deposits_stand_in_order(all);
        assert(attributes@.transactions == Some(all));
        assert(by@.transactions == Some(advance::deposits(all)));
        assert(by.transactions is Some);
        assert(are_deposits_at(all, advance::all_bytes(by.transactions->0@), places));
    } else {
        assert(by@.transactions is None);
        assert(by.transactions is None);
    }
}

/// Stripping a block leaves its time and its deposits.
pub proof fn only_deposits_are_kept(attributes: &Attributes, kept: Attributes)
    requires
        call_ensures(keep_deposits, (attributes,), kept),
    ensures
        replaces(*attributes, kept),
{
    stripped_attributes_replace(*attributes, kept);
}

/// A block that cannot be executed is dropped before Holocene, and the safe head is read again. From
/// Holocene on, the channel is flushed and a block with the deposits alone takes its place.
pub proof fn failed_block_is_dropped_or_stripped(
    derivation: &mut Derivation,
    attributes: Attributes,
    forks: &HardForks,
    genesis: &Genesis,
    action: DriverAction,
)
    requires
        call_ensures(
            Derivation::step,
            (derivation, DriverEvent::ExecutorError, forks, genesis),
            action,
        ),
        old(derivation).state == (DriverState::Executing { attributes }),
    ensures
        final(derivation).target == old(derivation).target,
        !holocene_has_come(*forks, attributes.timestamp) ==> action is ReadSafeHead
            && final(derivation).state is AtTip,
        holocene_has_come(*forks, attributes.timestamp) ==> action is FlushChannel
            && final(derivation).state is Flushing && replaces(
            attributes,
            final(derivation).state->Flushing_attributes,
        ),
{
    if holocene_has_come(*forks, attributes.timestamp) {
        stripped_attributes_replace(attributes, final(derivation).state->Flushing_attributes);
    }
}

/// After the flush, the stripped block is executed. If that fails too, the derivation is over.
pub proof fn stripped_block_is_tried_once(
    flush: &mut Derivation,
    retry: &mut Derivation,
    attributes: Attributes,
    forks: &HardForks,
    genesis: &Genesis,
    first: DriverAction,
    second: DriverAction,
)
    requires
        old(flush).state == (DriverState::Flushing { attributes }),
        call_ensures(Derivation::step, (flush, DriverEvent::Flushed, forks, genesis), first),
        *retry == *final(flush),
        call_ensures(
            Derivation::step,
            (retry, DriverEvent::ExecutorError, forks, genesis),
            second,
        ),
    ensures
        first is ExecutePayload,
        final(flush).state == (DriverState::Retrying { attributes }),
        second == DriverAction::Fail(DriverFailure::Executor),
        final(retry).state is Stopped,
{
}

/// A pipeline that fails, while it produces attributes or while it flushes a channel, ends the
/// derivation. So does an executor that cannot compute an output root.
pub proof fn outside_failure_ends_derivation(
    derivation: &mut Derivation,
    event: DriverEvent,
    forks: &HardForks,
    genesis: &Genesis,
    action: DriverAction,
)
    requires
        call_ensures(Derivation::step, (derivation, event, forks, genesis), action),
    ensures
        event is PipelineError ==> action == DriverAction::Fail(DriverFailure::Pipeline)
            && final(derivation).state is Stopped,
        event is ExecutorError && !(old(derivation).state is Executing) ==> action
            == DriverAction::Fail(DriverFailure::Executor) && final(derivation).state is Stopped,
{
}

/// The transactions of a block, none if the attributes do not name any.
pub open spec fn transactions_of(attributes: Attributes) -> Seq<Seq<u8>> {
    if attributes.transactions is Some {
        advance::all_bytes(attributes.transactions->0@)
    } else {
        Seq::empty()
    }
}

/// The block that was executed, as it is or stripped, is looked for in the chain if each of its
/// transactions can be decoded. Otherwise the derivation ends with the reason why the first that
/// cannot be decoded cannot.
pub proof fn executed_block_is_decoded(
    derivation: &mut Derivation,
    attributes: Attributes,
    header: Header,
    forks: &HardForks,
    genesis: &Genesis,
    action: DriverAction,
)
    requires
        call_ensures(
            Derivation::step,
            (derivation, DriverEvent::Executed(header), forks, genesis),
            action,
        ),
        old(derivation).state == (DriverState::Executing { attributes }) || old(derivation).state
            == (DriverState::Retrying { attributes }),
    ensures
        final(derivation).target == old(derivation).target,
        (forall|i: int|
            0 <= i < transactions_of(attributes).len() ==> advance::transaction_error(
                #[trigger] transactions_of(attributes)[i],
            ) is None) ==> action is ReadOrigin && final(derivation).state is Locating
            && final(derivation).state->Locating_header == header && transactions_of(
            final(derivation).state->Locating_attributes,
        ) == transactions_of(attributes),
        forall|i: int|
            0 <= i < transactions_of(attributes).len() && advance::transaction_error(
                #[trigger] transactions_of(attributes)[i],
            ) is Some && (forall|j: int|
                0 <= j < i ==> advance::transaction_error(
                    #[trigger] transactions_of(attributes)[j],
                ) is None) ==> {
                &&& final(derivation).state is Stopped
                &&& action matches DriverAction::Fail(DriverFailure::Rlp(text)) && Some(text@)
                    == advance::transaction_error(transactions_of(attributes)[i])
            },
{
    let txs = transactions_of(attributes);
    assert(attributes@.txs() == txs);
    if forall|i: int|
        0 <= i < txs.len() ==> advance::transaction_error(#[trigger] txs[i]) is None {
        assert(advance::are_transactions(txs, txs.len() as int));
        let a = final(derivation).state->Locating_attributes;
        assert(a@ == attributes@);
        assert(a@.txs() == transactions_of(a));
    }
    assert forall|i: int|
        0 <= i < txs.len() && advance::transaction_error(#[trigger] txs[i]) is Some && (forall|
            j: int,
        |
            0 <= j < i ==> advance::transaction_error(#[trigger] txs[j]) is None) implies {
        &&& final(derivation).state is Stopped
        &&& action matches DriverAction::Fail(DriverFailure::Rlp(text)) && Some(text@)
            == advance::transaction_error(txs[i])
    } by {
        assert(!advance::are_transactions(txs, txs.len() as int));
        let text = action->Fail_0->Rlp_0;
        let k = choose|k: int|
            0 <= k < txs.len() && advance::transaction_error(#[trigger] txs[k]) == Some(text@)
                && advance::are_transactions(txs, k);
        if k < i {
            assert(advance::transaction_error(txs[k]) is None);
        } else if i < k {
            assert(advance::transaction_error(txs[i]) is None);
        }
    }
}

/// The block that was executed becomes the next safe head: with the number, the time and the hash
/// of its header, the L1 origin that its transactions give, the output root that was computed, and
/// the L1 block that the pipeline stands at.
pub proof fn executed_block_becomes_safe_head(
    locate: &mut Derivation,
    root: &mut Derivation,
    attributes: Attributes,
    header: Header,
    origin: BlockInfo,
    output_root: B256,
    forks: &HardForks,
    genesis: &Genesis,
    first: DriverAction,
    second: DriverAction,
)
    requires
        old(locate).state == (DriverState::Locating { attributes, header }),
        call_ensures(
            Derivation::step,
            (locate, DriverEvent::Origin(Some(origin)), forks, genesis),
            first,
        ),
        first is ComputeOutputRoot,
        *root == *final(locate),
        call_ensures(
            Derivation::step,
            (root, DriverEvent::OutputRoot(output_root), forks, genesis),
            second,
        ),
    ensures
        final(root).state is AtTip,
        final(root).target == old(locate).target,
        second is Advance,
        second->origin == origin,
        ({
            let tip = second->tip;
            let info = tip.l2_safe_head;
            let found = advance::l1_origin_of(
                header@.rlp,
                transactions_of(attributes),
                (genesis.l1.number, genesis.l1.hash.bytes@),
                (genesis.l2.number, genesis.l2.hash.bytes@),
            );
            &&& tip.l2_safe_head_header == header
            &&& tip.l2_safe_head_output_root == output_root
            &&& info.block_info.number == header@.number
            &&& info.block_info.timestamp == header@.timestamp
            &&& info.block_info.parent_hash == header@.parent_hash
            &&& info.block_info.hash.bytes@ == hashing::keccak256_digest(header@.rlp)
            &&& found matches Ok((number, hash, seq_num)) && info.l1_origin.number == number
                && info.l1_origin.hash.bytes@ == hash && info.seq_num == seq_num
        }),
{
    assert(attributes@.txs() == transactions_of(attributes));
}

/// Without an L1 block that the pipeline stands at, or with a block that has no place in the chain,
/// the derivation ends.
pub proof fn misplaced_block_ends_derivation(
    derivation: &mut Derivation,
    attributes: Attributes,
    header: Header,
    origin: Option<BlockInfo>,
    forks: &HardForks,
    genesis: &Genesis,
    action: DriverAction,
)
    requires
        old(derivation).state == (DriverState::Locating { attributes, header }),
        call_ensures(
            Derivation::step,
            (derivation, DriverEvent::Origin(origin), forks, genesis),
            action,
        ),
    ensures
        ({
            let found = advance::l1_origin_of(
                header@.rlp,
                transactions_of(attributes),
                (genesis.l1.number, genesis.l1.hash.bytes@),
                (genesis.l2.number, genesis.l2.hash.bytes@),
            );
            &&& origin is None ==> action == DriverAction::Fail(DriverFailure::MissingOrigin)
                && final(derivation).state is Stopped
            &&& origin is Some && found is Err ==> (action matches DriverAction::Fail(
                DriverFailure::FromBlock(text),
            ) && text@ == found->Err_0) && final(derivation).state is Stopped
            &&& origin is Some && found is Ok ==> action is ComputeOutputRoot
                && final(derivation).state is Rooting
        }),
        final(derivation).target == old(derivation).target,
{
    assert(attributes@.txs() == transactions_of(attributes));
}

/// The hash of an output's block is its last 32 bytes, and the output is looked up by the last 31
/// bytes of its root.
pub proof fn output_is_found_by_root(output: &[u8; 128], hash: B256, root: B256, key: PreimageKey)
    requires
        call_ensures(safe_head_hash, (output,), hash),
        call_ensures(output_preimage_key, (root,), key),
    ensures
        forall|i: int| 0 <= i < 32 ==> #[trigger] hash.bytes@[i] == output@[96 + i],
        key.key_type == PreimageKeyType::Keccak256,
        forall|i: int| 0 <= i < 31 ==> #[trigger] key.data@[i] == root.bytes@[i + 1],
{
    assert(hash.bytes@ == hash@);
    assert(root.bytes@ == root@);
}

} // verus!
