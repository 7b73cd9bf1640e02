//! Witnesses that are made before they are needed.

use vstd::prelude::*;

use crate::common::fixed_bytes::B256;
use crate::config::args::parse_bool;
use crate::eigenda::cache_key;
use crate::eigenda::cache_key::range_key;
use crate::eigenda::cache_key::WitnessTasks;
use crate::rpc::el;
use crate::rpc::el::header_from_raw;
use crate::witness::preimage_store::PreimageKey;
use crate::witness::preimage_store::PreimageKeyType;

verus! {

/// The tag of the keys under which witnesses are stored.
pub const CACHE_KEY_TAG: u8 = 0xc1;

/// How far past an L2 block's own L1 head its data may lie, in L1 blocks.
pub const L1_HEAD_BUFFER: u64 = 20;

/// Where witnesses are stored.
#[derive(Debug, PartialEq, Eq)]
pub enum StoreMode {
    /// Nowhere: there is no precaching.
    Unconfigured,
    Memory,
    /// In this directory.
    Disk(String),
}

/// Decides where witnesses are stored. `data_dir` is the configured directory, if there is one; an
/// empty one stands for memory.
pub fn store_mode(data_dir: Option<String>) -> (r: StoreMode)
    ensures
        r == (match data_dir {
            Some(dir) => if dir@.len() == 0 {
                StoreMode::Memory
            } else {
                StoreMode::Disk(dir)
            },
            None => StoreMode::Unconfigured,
        }),
{
    match data_dir {
        Some(dir) => {
            if dir.as_str().is_empty() {
                StoreMode::Memory
            } else {
                StoreMode::Disk(dir)
            }
        },
        None => StoreMode::Unconfigured,
    }
}

/// Whether proofs are mocked: only if the variable says so.
pub fn mock_mode(var: Option<&str>) -> (r: bool)
    ensures
        r == (var is Some && var->0@ == "true"@),
{
    match var {
        Some(var) => match parse_bool(var) {
            Some(flag) => flag,
            None => false,
        },
        None => false,
    }
}

/// The L1 block up to which data is looked for: some blocks after the L1 head, but not after the
/// finalized block.
pub fn safe_l1_head_number(l1_head_number: u64, finalized_l1_number: u64) -> (r: u64)
    requires
        l1_head_number + L1_HEAD_BUFFER <= u64::MAX,
    ensures
        r == (if l1_head_number + L1_HEAD_BUFFER < finalized_l1_number {
            l1_head_number + L1_HEAD_BUFFER
        } else {
            finalized_l1_number as int
        }),
        r <= finalized_l1_number,
{
    let buffered: u64 = l1_head_number + L1_HEAD_BUFFER;
    if buffered < finalized_l1_number {
        buffered
    } else {
        finalized_l1_number
    }
}

/// The L1 head of a proof: the given one, or else one that is to be calculated.
pub fn given_l1_head(l1_head_hash: Option<B256>, calculated: B256) -> (r: B256)
    ensures
        r == (match l1_head_hash {
            Some(hash) => hash,
            None => calculated,
        }),
{
    match l1_head_hash {
        Some(hash) => hash,
        None => calculated,
    }
}

/// Why there is no witness.
#[derive(Clone, Copy, Debug, PartialEq, Eq, Structural)]
pub enum HostError {
    /// There is no storage.
    StorageNotConfigured,
    /// A stored witness is not there any more.
    EntryDisappeared,
    /// The witness holds no EigenDA data.
    MissingEigenDAWitness,
    /// The header of the L1 head cannot be decoded.
    BadHeader,
    /// The proof is not a compressed one.
    NotCompressed,
    /// Something that was asked for has failed.
    Outside,
}

/// The key under which the witness of a range is stored.
pub fn get_cache_key(start_block: u64, end_block: u64) -> (r: B256)
    ensures
        r@ == cache_key::range_key_bytes(CACHE_KEY_TAG, start_block, end_block),
{
    range_key(CACHE_KEY_TAG, start_block, end_block)
}

/// How far the making of a witness has come.
#[derive(Clone, Copy, Debug, PartialEq, Eq)]
pub enum PrecacheState {
    /// The store was asked for the witness.
    LookingUp,
    /// The host's arguments were asked for.
    FetchingArgs,
    /// The host was run.
    Running,
    /// The boot information was asked for.
    Booting,
    /// The header of the L1 head was asked for.
    ReadingHeader { l1_head: B256, l1_chain_id: u64 },
    /// The inputs of the certificates' proof were asked for.
    MakingCanoeInputs,
    /// The input stream of the certificates' proof was asked for.
    MakingCanoeStdin,
    /// The witness was handed to the store.
    Storing,
    Stopped,
}

/// What comes back.
#[derive(Debug, PartialEq, Eq)]
pub enum PrecacheEvent {
    /// Whether the store has the witness.
    LookedUp { present: bool },
    HostArgs,
    /// The witness, with or without EigenDA data.
    Witness { has_eigenda_witness: bool },
    BootInfo { l1_head: B256, l1_chain_id: u64 },
    /// The preimage of the L1 head.
    HeaderRlp(Vec<u8>),
    CanoeInputs { count: usize },
    CanoeStdin,
    Stored,
    /// What was asked for has failed.
    Failed,
}

/// What to do next.
#[derive(Debug)]
pub enum PrecacheAction {
    /// Asks a host without storage, and with proofs mocked, for its arguments.
    FetchHostArgs,
    RunHost,
    /// Takes the EigenDA data out of the witness and loads the boot information.
    LoadBootInfo,
    /// Reads the preimage under this key out of the witness.
    GetPreimage(PreimageKey),
    MakeCanoeInputs { l1_chain_id: u64, l1_head: B256, l1_head_number: u64 },
    MakeCanoeStdin,
    /// Puts the EigenDA data back and stores the witness under this key, with or without an input
    /// stream for the certificates' proof.
    Store { key: B256, with_canoe_stdin: bool },
    /// The witness is stored under this key.
    Done { key: B256 },
    Fail(HostError),
}

/// The making of the witness of a range of blocks.
#[derive(Debug)]
pub struct Precaching {
    pub start_block: u64,
    pub end_block: u64,
    pub state: PrecacheState,
}

impl Precaching {
    pub open spec fn key_bytes(&self) -> Seq<u8> {
        cache_key::range_key_bytes(CACHE_KEY_TAG, self.start_block, self.end_block)
    }

    /// The event can come in this state.
    pub open spec fn expects(&self, event: PrecacheEvent) -> bool {
        match self.state {
            PrecacheState::LookingUp => event is LookedUp || event is Failed,
            PrecacheState::FetchingArgs => event is HostArgs || event is Failed,
            PrecacheState::Running => event is Witness || event is Failed,
            PrecacheState::Booting => event is BootInfo || event is Failed,
            PrecacheState::ReadingHeader { .. } => event is HeaderRlp || event is Failed,
            PrecacheState::MakingCanoeInputs => event is CanoeInputs || event is Failed,
            PrecacheState::MakingCanoeStdin => event is CanoeStdin || event is Failed,
            PrecacheState::Storing => event is Stored || event is Failed,
            PrecacheState::Stopped => false,
        }
    }

    /// `next` and `action` are what follows from this state and `event`.
    pub open spec fn steps_to(
        &self,
        event: PrecacheEvent,
        next: PrecacheState,
        action: PrecacheAction,
    ) -> bool {
        match (self.state, event) {
            (_, PrecacheEvent::Failed) => next is Stopped && action == PrecacheAction::Fail(
                HostError::Outside,
            ),
            (PrecacheState::LookingUp, PrecacheEvent::LookedUp { present }) => if present {
                next is Stopped && self.is_done(action)
            } else {
                next is FetchingArgs && action is FetchHostArgs
            },
            (
                PrecacheState::FetchingArgs,
                PrecacheEvent::HostArgs,
            ) => next is Running && action is RunHost,
            (
                PrecacheState::Running,
                PrecacheEvent::Witness { has_eigenda_witness },
            ) => if has_eigenda_witness {
                next is Booting && action is LoadBootInfo
            } else {
                next is Stopped && action == PrecacheAction::Fail(HostError::MissingEigenDAWitness)
            },
            (PrecacheState::Booting, PrecacheEvent::BootInfo { l1_head, l1_chain_id }) => {
                &&& next == (PrecacheState::ReadingHeader { l1_head, l1_chain_id })
                &&& action matches PrecacheAction::GetPreimage(key) && key.key_type
                    == PreimageKeyType::Keccak256 && key.data@ == l1_head@.skip(1)
            },
            (
                PrecacheState::ReadingHeader { l1_head, l1_chain_id },
                PrecacheEvent::HeaderRlp(raw),
            ) => match el::decoded_header(raw@) {
                Some(header) => next is MakingCanoeInputs && action == (
                PrecacheAction::MakeCanoeInputs {
                    l1_chain_id,
                    l1_head,
                    l1_head_number: header.number,
                }),
                None => next is Stopped && action == PrecacheAction::Fail(HostError::BadHeader),
            },
            (PrecacheState::MakingCanoeInputs, PrecacheEvent::CanoeInputs { count }) => if count
                == 0 {
                next is Storing && self.is_store(action, false)
            } else {
                next is MakingCanoeStdin && action is MakeCanoeStdin
            },
            (
                PrecacheState::MakingCanoeStdin,
                PrecacheEvent::CanoeStdin,
            ) => next is Storing && self.is_store(action, true),
            (PrecacheState::Storing, PrecacheEvent::Stored) => next is Stopped && self.is_done(
                action,
            ),
            _ => false,
        }
    }

    pub open spec fn is_done(&self, action: PrecacheAction) -> bool {
        action matches PrecacheAction::Done { key } && key@ == self.key_bytes()
    }

    pub open spec fn is_store(&self, action: PrecacheAction, stdin: bool) -> bool {
        action matches PrecacheAction::Store { key, with_canoe_stdin } && key@ == self.key_bytes()
            && with_canoe_stdin == stdin
    }

    /// Decides what follows from an event.
    pub fn step(&mut self, event: PrecacheEvent) -> (r: PrecacheAction)
        requires
            old(self).expects(event),
        ensures
            final(self).start_block == old(self).start_block,
            final(self).end_block == old(self).end_block,
            old(self).steps_to(event, final(self).state, r),
    {
        let key = get_cache_key(self.start_block, self.end_block);
        let (state, action) = match (self.state, event) {
            (_, PrecacheEvent::Failed) => (
                PrecacheState::Stopped,
                PrecacheAction::Fail(HostError::Outside),
            ),
            (_, PrecacheEvent::LookedUp { present }) => {
                if present {
                    (PrecacheState::Stopped, PrecacheAction::Done { key })
                } else {
                    (PrecacheState::FetchingArgs, PrecacheAction::FetchHostArgs)
                }
            },
            (_, PrecacheEvent::HostArgs) => (PrecacheState::Running, PrecacheAction::RunHost),
            (_, PrecacheEvent::Witness { has_eigenda_witness }) => {
                if has_eigenda_witness {
                    (PrecacheState::Booting, PrecacheAction::LoadBootInfo)
                } else {
                    (
                        PrecacheState::Stopped,
                        PrecacheAction::Fail(HostError::MissingEigenDAWitness),
                    )
                }
            },
            (_, PrecacheEvent::BootInfo { l1_head, l1_chain_id }) => (
                PrecacheState::ReadingHeader { l1_head, l1_chain_id },
                PrecacheAction::GetPreimage(PreimageKey::new(l1_head, PreimageKeyType::Keccak256)),
            ),
            (
                PrecacheState::ReadingHeader { l1_head, l1_chain_id },
                PrecacheEvent::HeaderRlp(raw),
            ) => match header_from_raw(Some(raw)) {
                Some(header) => (
                    PrecacheState::MakingCanoeInputs,
                    PrecacheAction::MakeCanoeInputs {
                        l1_chain_id,
                        l1_head,
                        l1_head_number: header.number(),
                    },
                ),
                None => (PrecacheState::Stopped, PrecacheAction::Fail(HostError::BadHeader)),
            },
            (_, PrecacheEvent::CanoeInputs { count }) => {
                if count == 0 {
                    (
                        PrecacheState::Storing,
                        PrecacheAction::Store { key, with_canoe_stdin: false },
                    )
                } else {
                    (PrecacheState::MakingCanoeStdin, PrecacheAction::MakeCanoeStdin)
                }
            },
            (_, PrecacheEvent::CanoeStdin) => (
                PrecacheState::Storing,
                PrecacheAction::Store { key, with_canoe_stdin: true },
            ),
            (_, PrecacheEvent::Stored) => (PrecacheState::Stopped, PrecacheAction::Done { key }),
            _ => (PrecacheState::Stopped, PrecacheAction::Fail(HostError::Outside)),
        };
        self.state = state;
        action
    }
}

/// Where to find out whether a witness was made.
#[derive(Clone, Copy, Debug, PartialEq, Eq)]
pub enum PrecachedLookup {
    /// The work on it has begun.
    Begun,
    /// The store has to be asked for this key.
    AskStore { key: B256 },
}

/// How the making of a witness starts.
#[derive(Debug)]
pub enum PrecacheStart {
    /// The witness is stored under this key.
    Done { key: B256 },
    /// The store has to be asked for this key first.
    LookUp { key: B256, work: Precaching },
}

/// How the input of a range proof is made.
#[derive(Clone, Copy, Debug, PartialEq, Eq, Structural)]
pub enum RangeProofPlan {
    /// Without a stored witness.
    Default,
    /// From the stored witness, which is made first if it is not there.
    Precached,
}

/// A proof of certificates.
#[derive(Debug, PartialEq, Eq)]
pub enum CanoeProof {
    /// A compressed proof, serialized.
    Compressed(Vec<u8>),
    Other,
}

/// The witnesses that a host makes and stores.
#[derive(Debug)]
pub struct WitnessHost {
    configured: bool,
    tasks: WitnessTasks,
}

impl WitnessHost {
    /// There is storage.
    pub closed spec fn is_configured(&self) -> bool {
        self.configured
    }

    /// The ranges that were worked on, each with whether its witness is stored.
    pub closed spec fn work(&self) -> Map<(u64, u64), bool> {
        self.tasks@
    }

    /// The witness of this range is stored.
    pub open spec fn is_complete(&self, start_block: u64, end_block: u64) -> bool {
        self.work().contains_key((start_block, end_block)) && self.work()[(start_block, end_block)]
    }

    /// `start` is how the making of the witness of this range starts: not at all if it is stored.
    pub open spec fn starts(
        &self,
        start_block: u64,
        end_block: u64,
        start: PrecacheStart,
    ) -> bool {
        let bytes = cache_key::range_key_bytes(CACHE_KEY_TAG, start_block, end_block);
        if self.is_complete(start_block, end_block) {
            start matches PrecacheStart::Done { key } && key@ == bytes
        } else {
            start matches PrecacheStart::LookUp { key, work } && key@ == bytes && work == (
            Precaching { start_block, end_block, state: PrecacheState::LookingUp })
        }
    }

    pub fn new(mode: &StoreMode) -> (r: Self)
        ensures
            r.is_configured() == !(mode is Unconfigured),
            r.work() == Map::<(u64, u64), bool>::empty(),
    {
        let configured: bool = match mode {
            StoreMode::Unconfigured => false,
            StoreMode::Memory => true,
            StoreMode::Disk(_) => true,
        };
        WitnessHost { configured, tasks: WitnessTasks::new() }
    }

    /// Whether the witness of a range was made, or is being made, or where to find out. Work that
    /// has failed counts as begun.
    pub fn is_witness_precached(&self, start_block: u64, end_block: u64) -> (r: Result<
        PrecachedLookup,
        HostError,
    >)
        ensures
            !self.is_configured() ==> r == Err::<PrecachedLookup, HostError>(
                HostError::StorageNotConfigured,
            ),
            self.is_configured() && self.work().contains_key((start_block, end_block)) ==> r == Ok::<
                PrecachedLookup,
                HostError,
            >(PrecachedLookup::Begun),
            self.is_configured() && !self.work().contains_key((start_block, end_block)) ==> (
            r matches Ok(PrecachedLookup::AskStore { key }) && key@
                == cache_key::range_key_bytes(CACHE_KEY_TAG, start_block, end_block)),
    {
        if !self.configured {
            return Err(HostError::StorageNotConfigured);
        }
        if self.tasks.has(start_block, end_block) {
            return Ok(PrecachedLookup::Begun);
        }
        Ok(PrecachedLookup::AskStore { key: get_cache_key(start_block, end_block) })
    }

    /// Starts to make the witness of a range, unless it was made.
    pub fn precache_witness(&mut self, start_block: u64, end_block: u64) -> (r: Result<
        PrecacheStart,
        HostError,
    >)
        ensures
            final(self).is_configured() == old(self).is_configured(),
            !old(self).is_configured() ==> r == Err::<PrecacheStart, HostError>(
                HostError::StorageNotConfigured,
            ) && final(self).work() == old(self).work(),
            old(self).is_configured() ==> {
                &&& final(self).work() == (if old(self).work().contains_key(
                    (start_block, end_block),
                ) {
                    old(self).work()
                } else {
                    old(self).work().insert((start_block, end_block), false)
                })
                &&& r matches Ok(start) && old(self).starts(start_block, end_block, start)
            },
    {
        if !self.configured {
            return Err(HostError::StorageNotConfigured);
        }
        let key = get_cache_key(start_block, end_block);
        if self.tasks.begin(start_block, end_block) {
            return Ok(PrecacheStart::Done { key });
        }
        Ok(
            PrecacheStart::LookUp {
                key,
                work: Precaching { start_block, end_block, state: PrecacheState::LookingUp },
            },
        )
    }

    /// Notes that the witness of a range is stored. Work that has failed is not noted, so that it
    /// starts again the next time.
    pub fn precached(&mut self, start_block: u64, end_block: u64)
        ensures
            final(self).is_configured() == old(self).is_configured(),
            final(self).work() == old(self).work().insert((start_block, end_block), true),
    {
        self.tasks.complete(start_block, end_block);
    }

    /// Decides how the input of a range proof is made.
    pub fn range_proof_plan(&self) -> (r: RangeProofPlan)
        ensures
            r == (if self.is_configured() {
                RangeProofPlan::Precached
            } else {
                RangeProofPlan::Default
            }),
    {
        if self.configured {
            RangeProofPlan::Precached
        } else {
            RangeProofPlan::Default
        }
    }
}

/// The witness that was stored a moment ago.
pub fn stored_witness(buffer: Option<Vec<u8>>) -> (r: Result<Vec<u8>, HostError>)
    ensures
        r == (match buffer {
            Some(buffer) => Ok::<Vec<u8>, HostError>(buffer),
            None => Err(HostError::EntryDisappeared),
        }),
{
    match buffer {
        Some(buffer) => Ok(buffer),
        None => Err(HostError::EntryDisappeared),
    }
}

/// The proof of certificates that a witness is completed with: none if there is nothing to prove.
/// It has to be a compressed one, and the witness has to hold EigenDA data.
pub fn complete_witness(has_eigenda_witness: bool, canoe_proof: Option<CanoeProof>) -> (r: Result<
    Option<Vec<u8>>,
    HostError,
>)
    ensures
        r == (if canoe_proof == Some(CanoeProof::Other) {
            Err::<Option<Vec<u8>>, HostError>(HostError::NotCompressed)
        } else if !has_eigenda_witness {
            Err(HostError::MissingEigenDAWitness)
        } else {
            match canoe_proof {
                Some(CanoeProof::Compressed(bytes)) => Ok(Some(bytes)),
                _ => Ok(None),
            }
        }),
{
    let proof_bytes = match canoe_proof {
        Some(CanoeProof::Compressed(bytes)) => Some(bytes),
        Some(CanoeProof::Other) => {
            return Err(HostError::NotCompressed);
        },
        None => None,
    };
    if !has_eigenda_witness {
        return Err(HostError::MissingEigenDAWitness);
    }
    Ok(proof_bytes)
}

/// Once the witness of a range is noted as stored, it is not made again, whatever other work is
/// begun or noted in between.
pub proof fn stored_witness_is_not_made_again(
    noted: WitnessHost,
    later: WitnessHost,
    start_block: u64,
    end_block: u64,
    other_start: u64,
    other_end: u64,
    complete: bool,
    start: PrecacheStart,
)
    requires
        noted.is_complete(start_block, end_block),
        later.work() == noted.work() || later.work() == noted.work().insert(
            (other_start, other_end),
            complete,
        ),
        !complete ==> !noted.work().contains_key((other_start, other_end)),
        later.starts(start_block, end_block, start),
    ensures
        later.is_complete(start_block, end_block),
        start is Done,
{
}

} // verus!
