//! One block after the other, until the target is reached.

use alloy_consensus::BlockBody;
use alloy_rlp::Decodable;
use alloy_rlp::Error;
use kona_genesis::ChainGenesis;
use op_alloy_consensus::OpBlock;
use op_alloy_consensus::OpTxEnvelope;
use vstd::prelude::*;

use crate::client::hardforks::HardForks;
use crate::common::blocks::BlockInfo;
use crate::common::blocks::BlockNumHash;
use crate::common::blocks::L2BlockInfo;
use crate::common::bytes::copy_bytes;
use crate::common::contract::L2Output;
use crate::common::fixed_bytes::B256;
use crate::common::hashing;
use crate::rpc::el::Header;
use crate::rpc::el::HeaderView;
use crate::witness::preimage_store;
use crate::witness::preimage_store::PreimageKey;
use crate::witness::preimage_store::PreimageKeyType;

verus! {

/// The hash of the L2 block that an output belongs to. `output` is the output's encoding, of which
/// the hash is the last word.
pub fn safe_head_hash(output: &[u8; 128]) -> (r: B256)
    ensures
        r@ == output@.subrange(96, 128),
{
    let mut bytes = [0u8; 32];
    for i in 0..32
        invariant
            bytes@.len() == 32,
            output@.len() == 128,
            forall|j: int| 0 <= j < i ==> bytes@[j] == #[trigger] output@.subrange(96, 128)[j],
    {
        bytes[i] = output[96 + i];
    }
    assert(bytes@ =~= output@.subrange(96, 128));
    B256 { bytes }
}

/// The hash that is read out of an output's encoding is the one that was put into it.
pub proof fn output_holds_safe_head_hash(output: L2Output)
    ensures
        output.encoding().len() == 128,
        output.encoding().subrange(96, 128) == output.l2_claim_hash@,
{
    crate::common::bytes::be_bytes_len(output.zero as nat, 32);
    assert(output.encoding().subrange(96, 128) =~= output.l2_claim_hash@);
}

/// The key under which the output is found that has this root.
pub fn output_preimage_key(agreed_l2_output_root: B256) -> (r: PreimageKey)
    ensures
        r.key_type == PreimageKeyType::Keccak256,
        r.data@ == agreed_l2_output_root@.skip(1),
{
    PreimageKey::new(agreed_l2_output_root, PreimageKeyType::Keccak256)
}

/// The key of an output's root commits to the output's encoding.
pub proof fn root_key_commits_to_output(key: PreimageKey, root: B256, output: L2Output)
    requires
        key.key_type == PreimageKeyType::Keccak256,
        key.data@ == root@.skip(1),
        root@ == hashing::keccak256_digest(output.encoding()),
    ensures
        preimage_store::commits_to(key, output.encoding()),
{
}

/// What a block is built from: its time and its encoded transactions.
#[derive(Debug, PartialEq, Eq)]
pub struct Attributes {
    pub timestamp: u64,
    pub transactions: Option<Vec<Vec<u8>>>,
}

/// Attributes as a mathematical value.
pub struct AttributesView {
    pub timestamp: u64,
    pub transactions: Option<Seq<Seq<u8>>>,
}

/// The bytes of a list of byte strings.
pub open spec fn all_bytes(list: Seq<Vec<u8>>) -> Seq<Seq<u8>> {
    list.map_values(|item: Vec<u8>| item@)
}

impl View for Attributes {
    type V = AttributesView;

    open spec fn view(&self) -> AttributesView {
        AttributesView {
            timestamp: self.timestamp,
            transactions: match self.transactions {
                Some(txs) => Some(all_bytes(txs@)),
                None => None,
            },
        }
    }
}

impl AttributesView {
    /// The transactions of the block: none if the attributes do not name any.
    pub open spec fn txs(self) -> Seq<Seq<u8>> {
        match self.transactions {
            Some(txs) => txs,
            None => Seq::empty(),
        }
    }

    /// The same attributes with the deposits only.
    pub open spec fn deposits_only(self) -> AttributesView {
        AttributesView {
            timestamp: self.timestamp,
            transactions: match self.transactions {
                Some(txs) => Some(deposits(txs)),
                None => None,
            },
        }
    }
}

/// The first byte of an encoded deposit transaction.
pub const DEPOSIT_TX_TYPE: u8 = 0x7e;

pub open spec fn is_deposit(tx: Seq<u8>) -> bool {
    tx.len() > 0 && tx[0] == DEPOSIT_TX_TYPE
}

/// The deposits among some transactions, in their order.
pub open spec fn deposits(txs: Seq<Seq<u8>>) -> Seq<Seq<u8>> {
    txs.filter(|tx: Seq<u8>| is_deposit(tx))
}

/// Strips out all transactions that are not deposits.
pub fn keep_deposits(attributes: &Attributes) -> (r: Attributes)
    ensures
        r@ == attributes@.deposits_only(),
{
    let txs = match &attributes.transactions {
        Some(txs) => txs,
        None => {
            return Attributes { timestamp: attributes.timestamp, transactions: None };
        },
    };
    let ghost all = all_bytes(txs@);
    let mut kept: Vec<Vec<u8>> = Vec::new();
    proof {
        reveal(Seq::filter);
        assert(deposits(all.take(0)) =~= Seq::empty());
        assert(all_bytes(kept@) =~= Seq::empty());
    }
    for i in 0..txs.len()
        invariant
            all == all_bytes(txs@),
            all_bytes(kept@) == deposits(all.take(i as int)),
    {
        let ghost before = kept@;
        let tx = &txs[i];
        proof {
            reveal(Seq::filter);
            assert(all.take(i + 1).drop_last() =~= all.take(i as int));
            assert(all.take(i + 1).last() == tx@);
        }
        if tx.len() > 0 && tx[0] == DEPOSIT_TX_TYPE {
            let copy = copy_bytes(tx.as_slice());
            kept.push(copy);
            assert(all_bytes(kept@) =~= all_bytes(before).push(tx@));
        }
    }
    assert(all.take(all.len() as int) =~= all);
    Attributes { timestamp: attributes.timestamp, transactions: Some(kept) }
}

/// All that is kept is a deposit, and all deposits are kept.
proof fn deposits_are_complete(txs: Seq<Seq<u8>>)
    ensures
        forall|i: int| 0 <= i < deposits(txs).len() ==> is_deposit(#[trigger] deposits(txs)[i]),
        (forall|i: int| 0 <= i < txs.len() ==> is_deposit(#[trigger] txs[i])) ==> deposits(txs)
            == txs,
    decreases txs.len(),
{
    reveal(Seq::filter);
    if txs.len() > 0 {
        let before = txs.drop_last();
        deposits_are_complete(before);
        if forall|i: int| 0 <= i < txs.len() ==> is_deposit(#[trigger] txs[i]) {
            assert forall|i: int| 0 <= i < before.len() implies is_deposit(
                #[trigger] before[i],
            ) by {
                assert(before[i] == txs[i]);
            }
            assert(before.push(txs.last()) =~= txs);
        }
    }
}

/// A block with the deposits only holds nothing but deposits, and stripping it again changes
/// nothing.
pub proof fn deposits_only_is_stable(attributes: AttributesView)
    ensures
        forall|i: int|
            0 <= i < attributes.deposits_only().txs().len() ==> is_deposit(
                #[trigger] attributes.deposits_only().txs()[i],
            ),
        attributes.deposits_only().deposits_only() == attributes.deposits_only(),
{
    if let Some(txs) = attributes.transactions {
        deposits_are_complete(txs);
        deposits_are_complete(deposits(txs));
    }
}

/// The blocks that L2 starts from.
#[derive(Clone, Copy, Debug, PartialEq, Eq)]
pub struct Genesis {
    pub l1: BlockNumHash,
    pub l2: BlockNumHash,
}

/// Why `raw` does not start with an encoded transaction; `None` if it does.
pub uninterp spec fn transaction_error(raw: Seq<u8>) -> Option<Seq<char>>;

/// `OpTxEnvelope::decode` of `op_alloy_consensus`: whether it fails, and the text of its error, are
/// functions of the bytes alone. What bytes make up a transaction is not said.
#[verifier::external_body]
fn find_transaction_error(raw: &[u8]) -> (r: Option<String>)
    ensures
        match transaction_error(raw@) {
            Some(error) => r is Some && r->0@ == error,
            None => r is None,
        },
{
    Some(OpTxEnvelope::decode(&mut &raw[..]).err()?.to_string())
}

/// The number and the hash of the L1 origin of the L2 block with this header and these
/// transactions, and its place among the blocks of that origin. If that is not an L2 block, why not.
/// The chain starts with the given blocks.
pub uninterp spec fn l1_origin_of(
    header: Seq<u8>,
    txs: Seq<Seq<u8>>,
    l1_start: (u64, Seq<u8>),
    l2_start: (u64, Seq<u8>),
) -> Result<(u64, Seq<u8>, u64), Seq<char>>;

/// `kona_protocol::L2BlockInfo::from_block_and_genesis`, on a block and on genesis blocks whose
/// parts are given as plain values: a function of these alone. If a part cannot be decoded or the
/// call fails, it is the text of the error. How the origin is found is not said.
#[verifier::external_body]
fn find_l1_origin(
    header: &Vec<u8>,
    txs: &Vec<Vec<u8>>,
    l1_number: u64,
    l1_hash: [u8; 32],
    l2_number: u64,
    l2_hash: [u8; 32],
) -> (r: Result<(u64, [u8; 32], u64), String>)
    ensures
        match l1_origin_of(
            header@,
            all_bytes(txs@),
            (l1_number, l1_hash@),
            (l2_number, l2_hash@),
        ) {
            Ok((number, hash, seq_num)) => r matches Ok(found) && found.0 == number && found.1@
                == hash && found.2 == seq_num,
            Err(error) => r matches Err(text) && text@ == error,
        },
{
    let text = |e: Error| e.to_string();
    let header = Decodable::decode(&mut &header[..]).map_err(text)?;
    let txs: Result<_, _> = txs.iter().map(|tx| Decodable::decode(&mut &tx[..])).collect();
    let body = BlockBody { transactions: txs.map_err(text)?, ..Default::default() };
    let genesis = ChainGenesis {
        l1: (l1_number, l1_hash.into()).into(),
        l2: (l2_number, l2_hash.into()).into(),
        ..Default::default()
    };
    kona_protocol::L2BlockInfo::from_block_and_genesis(&OpBlock { header, body }, &genesis)
        .map(|info| (info.l1_origin.number, info.l1_origin.hash.0, info.seq_num))
        .map_err(|e| e.to_string())
}

/// What `l1_origin_of` says of a block on a chain with these genesis blocks.
pub open spec fn origin_of(
    header: HeaderView,
    txs: Seq<Seq<u8>>,
    genesis: Genesis,
) -> Result<(u64, Seq<u8>, u64), Seq<char>> {
    l1_origin_of(
        header.rlp,
        txs,
        (genesis.l1.number, genesis.l1.hash@),
        (genesis.l2.number, genesis.l2.hash@),
    )
}

/// `info` is the block with this header, at `place` in the chain.
pub open spec fn is_info_of(
    header: HeaderView,
    place: (u64, Seq<u8>, u64),
    info: L2BlockInfo,
) -> bool {
    &&& info.block_info.hash@ == hashing::keccak256_digest(header.rlp)
    &&& info.block_info.number == header.number
    &&& info.block_info.parent_hash == header.parent_hash
    &&& info.block_info.timestamp == header.timestamp
    &&& info.l1_origin.number == place.0
    &&& info.l1_origin.hash@ == place.1
    &&& info.seq_num == place.2
}

/// What is known of the L2 block with this header and these transactions. An error says why that is
/// not an L2 block.
pub fn l2_block_info(header: &Header, txs: &Vec<Vec<u8>>, genesis: &Genesis) -> (r: Result<
    L2BlockInfo,
    String,
>)
    ensures
        match origin_of(header@, all_bytes(txs@), *genesis) {
            Ok(place) => r is Ok && is_info_of(header@, place, r->Ok_0),
            Err(error) => r is Err && r->Err_0@ == error,
        },
        header@.is_encoded(),
{
    let (l1, l2) = (&genesis.l1, &genesis.l2);
    let found = find_l1_origin(
        header.rlp(),
        txs,
        l1.number,
        l1.hash.bytes,
        l2.number,
        l2.hash.bytes,
    );
    match found {
        Ok((number, hash, seq_num)) => Ok(
            L2BlockInfo {
                block_info: BlockInfo {
                    hash: header.hash_slow(),
                    number: header.number(),
                    parent_hash: header.parent_hash(),
                    timestamp: header.timestamp(),
                },
                l1_origin: BlockNumHash { number, hash: B256 { bytes: hash } },
                seq_num,
            },
        ),
        Err(error) => Err(error),
    }
}

/// The first `n` of these are encoded transactions.
pub open spec fn are_transactions(txs: Seq<Seq<u8>>, n: int) -> bool {
    forall|i: int| 0 <= i < n ==> transaction_error(#[trigger] txs[i]) is None
}

/// `error` is why the first of these that is not an encoded transaction is none.
pub open spec fn is_first_error(txs: Seq<Seq<u8>>, error: Seq<char>) -> bool {
    exists|i: int|
        0 <= i < txs.len() && transaction_error(#[trigger] txs[i]) == Some(error)
            && are_transactions(txs, i)
}

/// Why the first of these that is not an encoded transaction is none; `None` if all are.
fn first_error(txs: &Vec<Vec<u8>>) -> (r: Option<String>)
    ensures
        match r {
            Some(error) => is_first_error(all_bytes(txs@), error@),
            None => are_transactions(all_bytes(txs@), txs@.len() as int),
        },
{
    for i in 0..txs.len()
        invariant
            are_transactions(all_bytes(txs@), i as int),
    {
        let ghost tx = all_bytes(txs@)[i as int];
        assert(tx == txs@[i as int]@);
        if let Some(error) = find_transaction_error(txs[i].as_slice()) {
            assert(transaction_error(tx) == Some(error@));
            return Some(error);
        }
    }
    None
}

/// The newest derived block.
#[derive(Debug, PartialEq, Eq)]
pub struct TipCursor {
    pub l2_safe_head: L2BlockInfo,
    pub l2_safe_head_header: Header,
    pub l2_safe_head_output_root: B256,
}

/// How far the derivation of the next block has come.
#[derive(Debug, PartialEq, Eq)]
pub enum DriverState {
    /// The safe head is about to be compared with the target.
    AtTip,
    /// The attributes of the block after `safe_head` were asked for.
    Deriving { safe_head: u64 },
    /// A block with these attributes is executed.
    Executing { attributes: Attributes },
    /// The block failed. The channel that it came from is flushed before a block with these
    /// attributes, which hold its deposits only, is executed in its place.
    Flushing { attributes: Attributes },
    /// The block with the deposits only is executed.
    Retrying { attributes: Attributes },
    /// A block with these attributes was executed. The origin of the pipeline was asked for.
    Locating { attributes: Attributes, header: Header },
    /// The block is built. Its output root was asked for.
    Rooting { origin: BlockInfo, l2_info: L2BlockInfo, header: Header },
    /// The derivation is over.
    Stopped,
}

/// What comes back from the pipeline and the executor.
#[derive(Debug, PartialEq, Eq)]
pub enum DriverEvent {
    /// The safe head and its output root.
    SafeHead { l2_safe_head: L2BlockInfo, output_root: B256 },
    /// The attributes of the next block.
    Payload(Attributes),
    /// There is no more data to derive blocks from.
    EndOfSource,
    /// The pipeline has failed otherwise.
    PipelineError,
    /// The header of the executed block.
    Executed(Header),
    /// The executor has failed.
    ExecutorError,
    /// The channel is flushed.
    Flushed,
    /// The L1 block that the pipeline stands at.
    Origin(Option<BlockInfo>),
    /// The output root of the executed block.
    OutputRoot(B256),
}

/// What to do next.
#[derive(Debug, PartialEq, Eq)]
pub enum DriverAction {
    /// Reads the safe head and its output root.
    ReadSafeHead,
    /// Asks the pipeline for the attributes of the next block.
    ProducePayload,
    /// Hands the safe head to the executor and executes the block with the current attributes.
    ExecutePayload,
    /// Flushes the pipeline's current channel.
    FlushChannel,
    /// Reads the origin of the pipeline.
    ReadOrigin,
    /// Asks the executor for the output root.
    ComputeOutputRoot,
    /// Makes `tip` the safe head, then reads it.
    Advance { origin: BlockInfo, tip: TipCursor },
    /// Returns the safe head and its output root.
    Finish { l2_safe_head: L2BlockInfo, output_root: B256 },
    Fail(DriverFailure),
}

/// Why no more blocks are derived.
#[derive(Debug, PartialEq, Eq)]
pub enum DriverFailure {
    /// The data has come to its end while Interop is active: the number of the safe head is not
    /// below the Interop time.
    EndOfSource,
    Pipeline,
    Executor,
    /// A transaction cannot be decoded, for this reason.
    Rlp(String),
    MissingOrigin,
    /// The executed block is no L2 block, for this reason.
    FromBlock(String),
}

/// The derivation of blocks up to a target, or without one.
#[derive(Debug)]
pub struct Derivation {
    pub target: Option<u64>,
    pub state: DriverState,
}

impl Derivation {
    /// The target is reached with this safe head.
    pub open spec fn is_reached(&self, safe_head: u64) -> bool {
        self.target is Some && safe_head >= self.target->0
    }

    /// The event can come in this state.
    pub open spec fn expects(&self, event: DriverEvent) -> bool {
        match self.state {
            DriverState::AtTip => event is SafeHead,
            DriverState::Deriving { .. } => event is Payload || event is EndOfSource
                || event is PipelineError,
            DriverState::Executing { .. } | DriverState::Retrying { .. } => event is Executed
                || event is ExecutorError,
            DriverState::Flushing { .. } => event is Flushed || event is PipelineError,
            DriverState::Locating { .. } => event is Origin,
            DriverState::Rooting { .. } => event is OutputRoot || event is ExecutorError,
            DriverState::Stopped => false,
        }
    }

    /// After a block with these attributes was executed, its transactions have to be decoded.
    pub open spec fn builds(
        &self,
        attributes: AttributesView,
        header: Header,
        action: DriverAction,
    ) -> bool {
        if are_transactions(attributes.txs(), attributes.txs().len() as int) {
            &&& action is ReadOrigin
            &&& self.state matches DriverState::Locating { attributes: a, header: h } && a@
                == attributes && h == header
        } else {
            &&& self.state is Stopped
            &&& action matches DriverAction::Fail(DriverFailure::Rlp(error)) && is_first_error(
                attributes.txs(),
                error@,
            )
        }
    }

    /// The derivation is over.
    pub open spec fn fails(&self, failure: DriverFailure, action: DriverAction) -> bool {
        self.state is Stopped && action == DriverAction::Fail(failure)
    }

    /// `next` and `action` are what follows from this state and `event`.
    ///
    /// When the data has come to its end, it is the block number of the safe head, not its
    /// timestamp, that is compared with the Interop time.
    pub open spec fn steps_to(
        &self,
        event: DriverEvent,
        forks: HardForks,
        genesis: Genesis,
        next: Derivation,
        action: DriverAction,
    ) -> bool {
        &&& next.target == (match (self.state, event) {
            (DriverState::Deriving { safe_head }, DriverEvent::EndOfSource) => if self.target
                is Some {
                Some(safe_head)
            } else {
                None
            },
            _ => self.target,
        })
        &&& match (self.state, event) {
            (
                DriverState::AtTip,
                DriverEvent::SafeHead { l2_safe_head, output_root },
            ) => if self.is_reached(l2_safe_head.block_info.number) {
                action == (DriverAction::Finish { l2_safe_head, output_root })
                    && next.state is Stopped
            } else {
                action is ProducePayload && next.state == (DriverState::Deriving {
                    safe_head: l2_safe_head.block_info.number,
                })
            },
            (DriverState::Deriving { .. }, DriverEvent::Payload(attributes)) => {
                action is ExecutePayload && next.state == (DriverState::Executing { attributes })
            },
            (DriverState::Deriving { safe_head }, DriverEvent::EndOfSource) => if forks.interop(
                safe_head,
            ) {
                next.fails(DriverFailure::EndOfSource, action)
            } else {
                action is ReadSafeHead && next.state is AtTip
            },
            (DriverState::Deriving { .. }, DriverEvent::PipelineError) => next.fails(
                DriverFailure::Pipeline,
                action,
            ),
            (DriverState::Executing { attributes }, DriverEvent::Executed(header)) => next.builds(
                attributes@,
                header,
                action,
            ),
            (DriverState::Executing { attributes }, DriverEvent::ExecutorError) => {
                if forks.holocene(attributes.timestamp) {
                    &&& action is FlushChannel
                    &&& next.state matches DriverState::Flushing { attributes: a } && a@
                        == attributes@.deposits_only()
                } else {
                    action is ReadSafeHead && next.state is AtTip
                }
            },
            (DriverState::Flushing { attributes }, DriverEvent::Flushed) => {
                action is ExecutePayload && next.state == (DriverState::Retrying { attributes })
            },
            (DriverState::Flushing { .. }, DriverEvent::PipelineError) => next.fails(
                DriverFailure::Pipeline,
                action,
            ),
            (DriverState::Retrying { attributes }, DriverEvent::Executed(header)) => next.builds(
                attributes@,
                header,
                action,
            ),
            (DriverState::Retrying { .. }, DriverEvent::ExecutorError) => next.fails(
                DriverFailure::Executor,
                action,
            ),
            (
                DriverState::Locating { attributes, header },
                DriverEvent::Origin(origin),
            ) => match (origin, origin_of(header@, attributes@.txs(), genesis)) {
                (None, _) => next.fails(DriverFailure::MissingOrigin, action),
                (Some(_), Err(error)) => {
                    &&& next.state is Stopped
                    &&& action matches DriverAction::Fail(DriverFailure::FromBlock(text)) && text@
                        == error
                },
                (Some(origin), Ok(place)) => {
                    &&& action is ComputeOutputRoot
                    &&& header@.is_encoded()
                    &&& next.state matches DriverState::Rooting { origin: o, l2_info, header: h }
                        && o == origin && h == header && is_info_of(header@, place, l2_info)
                },
            },
            (
                DriverState::Rooting { origin, l2_info, header },
                DriverEvent::OutputRoot(root),
            ) => {
                &&& next.state is AtTip
                &&& action == (DriverAction::Advance {
                    origin,
                    tip: TipCursor {
                        l2_safe_head: l2_info,
                        l2_safe_head_header: header,
                        l2_safe_head_output_root: root,
                    },
                })
            },
            (DriverState::Rooting { .. }, DriverEvent::ExecutorError) => next.fails(
                DriverFailure::Executor,
                action,
            ),
            _ => false,
        }
    }

    /// Starts with the comparison of the safe head with the target.
    pub fn new(target: Option<u64>) -> (r: Self)
        ensures
            r.target == target,
            r.state is AtTip,
    {
        Derivation { target, state: DriverState::AtTip }
    }

    fn stop(&mut self, failure: DriverFailure) -> (r: DriverAction)
        ensures
            final(self).target == old(self).target,
            final(self).fails(failure, r),
    {
        self.state = DriverState::Stopped;
        DriverAction::Fail(failure)
    }

    fn build(&mut self, attributes: Attributes, header: Header) -> (r: DriverAction)
        ensures
            final(self).target == old(self).target,
            final(self).builds(attributes@, header, r),
    {
        let error = match &attributes.transactions {
            Some(txs) => first_error(txs),
            None => None,
        };
        if let Some(error) = error {
            return self.stop(DriverFailure::Rlp(error));
        }
        self.state = DriverState::Locating { attributes, header };
        DriverAction::ReadOrigin
    }

    /// Decides what follows from an event.
    pub fn step(&mut self, event: DriverEvent, forks: &HardForks, genesis: &Genesis) -> (r:
        DriverAction)
        requires
            old(self).expects(event),
        ensures
            old(self).steps_to(event, *forks, *genesis, *final(self), r),
    {
        let mut state = DriverState::Stopped;
        std::mem::swap(&mut state, &mut self.state);
        match state {
            DriverState::AtTip => match event {
                DriverEvent::SafeHead { l2_safe_head, output_root } => {
                    let safe_head: u64 = l2_safe_head.block_info.number;
                    if let Some(target) = self.target {
                        if safe_head >= target {
                            return DriverAction::Finish { l2_safe_head, output_root };
                        }
                    }
                    self.state = DriverState::Deriving { safe_head };
                    DriverAction::ProducePayload
                },
                _ => self.stop(DriverFailure::Pipeline),
            },
            DriverState::Deriving { safe_head } => match event {
                DriverEvent::Payload(attributes) => {
                    self.state = DriverState::Executing { attributes };
                    DriverAction::ExecutePayload
                },
                DriverEvent::EndOfSource => {
                    if self.target.is_some() {
                        self.target = Some(safe_head);
                    }
                    // `safe_head` is a block number; it stands in for a timestamp here.
                    if forks.is_interop_active(safe_head) {
                        self.stop(DriverFailure::EndOfSource)
                    } else {
                        self.state = DriverState::AtTip;
                        DriverAction::ReadSafeHead
                    }
                },
                _ => self.stop(DriverFailure::Pipeline),
            },
            DriverState::Executing { attributes } => match event {
                DriverEvent::Executed(header) => self.build(attributes, header),
                _ => {
                    if forks.is_holocene_active(attributes.timestamp) {
                        self.state = DriverState::Flushing {
                            attributes: keep_deposits(&attributes),
                        };
                        DriverAction::FlushChannel
                    } else {
                        self.state = DriverState::AtTip;
                        DriverAction::ReadSafeHead
                    }
                },
            },
            DriverState::Flushing { attributes } => match event {
                DriverEvent::Flushed => {
                    self.state = DriverState::Retrying { attributes };
                    DriverAction::ExecutePayload
                },
                _ => self.stop(DriverFailure::Pipeline),
            },
            DriverState::Retrying { attributes } => match event {
                DriverEvent::Executed(header) => self.build(attributes, header),
                _ => self.stop(DriverFailure::Executor),
            },
            DriverState::Locating { attributes, header } => match event {
                DriverEvent::Origin(Some(origin)) => {
                    let no_txs: Vec<Vec<u8>> = Vec::new();
                    assert(all_bytes(no_txs@) =~= Seq::empty());
                    let txs = match &attributes.transactions {
                        Some(txs) => txs,
                        None => &no_txs,
                    };
                    match l2_block_info(&header, txs, genesis) {
                        Ok(l2_info) => {
                            self.state = DriverState::Rooting { origin, l2_info, header };
                            DriverAction::ComputeOutputRoot
                        },
                        Err(error) => self.stop(DriverFailure::FromBlock(error)),
                    }
                },
                _ => self.stop(DriverFailure::MissingOrigin),
            },
            DriverState::Rooting { origin, l2_info, header } => match event {
                DriverEvent::OutputRoot(root) => {
                    self.state = DriverState::AtTip;
                    DriverAction::Advance {
                        origin,
                        tip: TipCursor {
                            l2_safe_head: l2_info,
                            l2_safe_head_header: header,
                            l2_safe_head_output_root: root,
                        },
                    }
                },
                _ => self.stop(DriverFailure::Executor),
            },
            DriverState::Stopped => self.stop(DriverFailure::Pipeline),
        }
    }
}

/// Once the data has come to its end, a derivation with a target halts with the current safe head:
/// the target becomes that head, which is then reached and handed back with its output root.
pub proof fn end_of_source_halts(
    before: Derivation,
    l2_safe_head: L2BlockInfo,
    output_root: B256,
    forks: HardForks,
    genesis: Genesis,
    middle: Derivation,
    action: DriverAction,
    after: Derivation,
    last: DriverAction,
)
    requires
        before.target is Some,
        before.state == (DriverState::Deriving { safe_head: l2_safe_head.block_info.number }),
        !forks.interop(l2_safe_head.block_info.number),
        before.steps_to(DriverEvent::EndOfSource, forks, genesis, middle, action),
        middle.steps_to(
            DriverEvent::SafeHead { l2_safe_head, output_root },
            forks,
            genesis,
            after,
            last,
        ),
    ensures
        action is ReadSafeHead,
        last == (DriverAction::Finish { l2_safe_head, output_root }),
        after.state is Stopped,
{
}

/// A derivation finishes only once its target is reached, and one without a target never does. It
/// hands back the safe head that has reached the target, with its output root.
pub proof fn finishes_at_target(
    before: Derivation,
    event: DriverEvent,
    forks: HardForks,
    genesis: Genesis,
    after: Derivation,
    action: DriverAction,
    l2_safe_head: L2BlockInfo,
    output_root: B256,
)
    requires
        before.steps_to(event, forks, genesis, after, action),
        action == (DriverAction::Finish { l2_safe_head, output_root }),
    ensures
        event == (DriverEvent::SafeHead { l2_safe_head, output_root }),
        before.is_reached(l2_safe_head.block_info.number),
        before.target is Some,
{
}

/// A block that fails once Holocene is active is replaced by one that holds its deposits only, and
/// the channel it came from is flushed before that.
pub proof fn failed_block_is_replaced_by_deposits(
    before: Derivation,
    attributes: Attributes,
    forks: HardForks,
    genesis: Genesis,
    middle: Derivation,
    flush: DriverAction,
    after: Derivation,
    execute: DriverAction,
)
    requires
        before.state == (DriverState::Executing { attributes }),
        forks.holocene(attributes.timestamp),
        before.steps_to(DriverEvent::ExecutorError, forks, genesis, middle, flush),
        middle.steps_to(DriverEvent::Flushed, forks, genesis, after, execute),
    ensures
        flush is FlushChannel,
        execute is ExecutePayload,
        after.state matches DriverState::Retrying { attributes: a } && a@
            == attributes@.deposits_only(),
        after.target == before.target,
{
}

/// The target never moves, except to the safe head when the data has come to its end.
pub proof fn target_stays(
    before: Derivation,
    event: DriverEvent,
    forks: HardForks,
    genesis: Genesis,
    after: Derivation,
    action: DriverAction,
)
    requires
        before.steps_to(event, forks, genesis, after, action),
        !(event is EndOfSource),
    ensures
        after.target == before.target,
{
}

} // verus!
