//! How witnesses are made ahead of time and found again.

use vstd::arithmetic::power::pow;
use vstd::prelude::*;

use crate::common::bytes;
use crate::common::fixed_bytes::B256;
use crate::eigenda::cache_key;
use crate::eigenda::host::complete_witness;
use crate::eigenda::host::get_cache_key;
use crate::eigenda::host::given_l1_head;
use crate::eigenda::host::mock_mode;
use crate::eigenda::host::safe_l1_head_number;
use crate::eigenda::host::store_mode;
use crate::eigenda::host::stored_witness;
use crate::eigenda::host::CanoeProof;
use crate::eigenda::host::HostError;
use crate::eigenda::host::PrecacheAction;
use crate::eigenda::host::PrecacheEvent;
use crate::eigenda::host::PrecacheStart;
use crate::eigenda::host::PrecachedLookup;
use crate::eigenda::host::Precaching;
use crate::eigenda::host::RangeProofPlan;
use crate::eigenda::host::StoreMode;
use crate::eigenda::host::WitnessHost;
use crate::eigenda::precacher::encode_key;
use crate::eigenda::precacher::PrecacherError;
use crate::eigenda::precacher::PrecacherWork;
use crate::eigenda::precacher::WitnessPrecacher;
use crate::rpc::el;
use crate::witness::preimage_store::PreimageKeyType;

verus! {

/// The key of a range of blocks: the tag, 15 zero bytes, and the first and the last block in 8 bytes
/// each, the heaviest byte first.
pub open spec fn is_key_of(key: B256, tag: u8, start_block: u64, end_block: u64) -> bool {
    &&& key.bytes@[0] == tag
    &&& forall|i: int| 1 <= i < 16 ==> #[trigger] key.bytes@[i] == 0
    &&& forall|i: int|
        16 <= i < 24 ==> #[trigger] key.bytes@[i] == (start_block as int / pow(
            256,
            (23 - i) as nat,
        )) % 256
    &&& forall|i: int|
        24 <= i < 32 ==> #[trigger] key.bytes@[i] == (end_block as int / pow(
            256,
            (31 - i) as nat,
        )) % 256
}

proof fn key_bytes_are_key(key: B256, tag: u8, start_block: u64, end_block: u64)
    requires
        key@ == cache_key::range_key_bytes(tag, start_block, end_block),
    ensures
        is_key_of(key, tag, start_block, end_block),
{
    let (s, e) = (start_block as nat, end_block as nat);
    bytes::be_bytes_len(s, 8);
    bytes::be_bytes_len(e, 8);
    assert(key.bytes@ == key@);
    assert forall|i: int| 16 <= i < 24 implies #[trigger] key.bytes@[i] == (start_block as int
        / pow(256, (23 - i) as nat)) % 256 by {
        bytes::be_bytes_place(s, 8, i - 16);
        assert(key@[i] == bytes::be_bytes(s, 8)[i - 16]);
    }
    assert forall|i: int| 24 <= i < 32 implies #[trigger] key.bytes@[i] == (end_block as int / pow(
        256,
        (31 - i) as nat,
    )) % 256 by {
        bytes::be_bytes_place(e, 8, i - 24);
        assert(key@[i] == bytes::be_bytes(e, 8)[i - 24]);
    }
}

/// The keys of a host start with `c1` and those of the precacher with `ca`. The blocks of the range
/// stand behind that.
pub proof fn keys_hold_range(start_block: u64, end_block: u64, host_key: B256, precacher_key: B256)
    requires
        call_ensures(get_cache_key, (start_block, end_block), host_key),
        call_ensures(encode_key, (start_block, end_block), precacher_key),
    ensures
        is_key_of(host_key, 0xc1, start_block, end_block),
        is_key_of(precacher_key, 0xca, start_block, end_block),
{
    key_bytes_are_key(host_key, 0xc1, start_block, end_block);
    key_bytes_are_key(precacher_key, 0xca, start_block, end_block);
}

/// A witness that is stored is not made. One that is not is made by a host, which needs its
/// arguments first.
pub proof fn witness_is_made_if_missing(
    work: &mut Precaching,
    event: PrecacheEvent,
    action: PrecacheAction,
)
    requires
        call_ensures(Precaching::step, (work, event), action),
    ensures
        old(work).state is LookingUp && event == (PrecacheEvent::LookedUp { present: true })
            ==> final(work).state is Stopped && (action matches PrecacheAction::Done { key }
            && is_key_of(key, 0xc1, old(work).start_block, old(work).end_block)),
        old(work).state is LookingUp && event == (PrecacheEvent::LookedUp { present: false })
            ==> final(work).state is FetchingArgs && action is FetchHostArgs,
        old(work).state is FetchingArgs && event is HostArgs ==> final(work).state is Running
            && action is RunHost,
        old(work).state is Running && event == (PrecacheEvent::Witness {
            has_eigenda_witness: true,
        }) ==> final(work).state is Booting && action is LoadBootInfo,
        old(work).state is Running && event == (PrecacheEvent::Witness {
            has_eigenda_witness: false,
        }) ==> final(work).state is Stopped && action == PrecacheAction::Fail(
            HostError::MissingEigenDAWitness,
        ),
        final(work).start_block == old(work).start_block,
        final(work).end_block == old(work).end_block,
{
    if let PrecacheAction::Done { key } = action {
        if key@ == old(work).key_bytes() {
            key_bytes_are_key(key, 0xc1, old(work).start_block, old(work).end_block);
        }
    }
}

/// The header of the L1 head is read under its hash, and its number goes with the head itself into
/// the inputs of the certificates' proof. A header that cannot be decoded ends the work.
pub proof fn canoe_inputs_are_those_of_l1_head(
    boot: &mut Precaching,
    read: &mut Precaching,
    l1_head: B256,
    l1_chain_id: u64,
    raw: Vec<u8>,
    first: PrecacheAction,
    second: PrecacheAction,
)
    requires
        old(boot).state is Booting,
        call_ensures(
            Precaching::step,
            (boot, PrecacheEvent::BootInfo { l1_head, l1_chain_id }),
            first,
        ),
        *read == *final(boot),
        call_ensures(Precaching::step, (read, PrecacheEvent::HeaderRlp(raw)), second),
    ensures
        first matches PrecacheAction::GetPreimage(key) && key.key_type
            == PreimageKeyType::Keccak256 && key.data@ == l1_head.bytes@.skip(1),
        el::decoded_header(raw@) matches Some(header) ==> final(read).state is MakingCanoeInputs
            && second == (PrecacheAction::MakeCanoeInputs {
            l1_chain_id,
            l1_head,
            l1_head_number: header.number,
        }),
        el::decoded_header(raw@) is None ==> final(read).state is Stopped && second
            == PrecacheAction::Fail(HostError::BadHeader),
{
}

/// A witness is stored under the key of its range, with an input stream for the certificates' proof
/// if and only if there is a certificate. Once it is stored, the work is done.
pub proof fn witness_is_stored_under_its_key(
    work: &mut Precaching,
    event: PrecacheEvent,
    action: PrecacheAction,
)
    requires
        call_ensures(Precaching::step, (work, event), action),
    ensures
        old(work).state is MakingCanoeInputs && event == (PrecacheEvent::CanoeInputs { count: 0 })
            ==> final(work).state is Storing && (action matches PrecacheAction::Store {
            key,
            with_canoe_stdin,
        } && !with_canoe_stdin && is_key_of(
            key,
            0xc1,
            old(work).start_block,
            old(work).end_block,
        )),
        old(work).state is MakingCanoeInputs && (event matches PrecacheEvent::CanoeInputs { count }
            && count > 0) ==> final(work).state is MakingCanoeStdin && action is MakeCanoeStdin,
        old(work).state is MakingCanoeStdin && event is CanoeStdin ==> final(work).state is Storing
            && (action matches PrecacheAction::Store { key, with_canoe_stdin } && with_canoe_stdin
            && is_key_of(key, 0xc1, old(work).start_block, old(work).end_block)),
        old(work).state is Storing && event is Stored ==> final(work).state is Stopped && (
        action matches PrecacheAction::Done { key } && is_key_of(
            key,
            0xc1,
            old(work).start_block,
            old(work).end_block,
        )),
        event is Failed ==> final(work).state is Stopped && action == PrecacheAction::Fail(
            HostError::Outside,
        ),
{
    let (start, end) = (old(work).start_block, old(work).end_block);
    if let PrecacheAction::Done { key } = action {
        if key@ == old(work).key_bytes() {
            key_bytes_are_key(key, 0xc1, start, end);
        }
    }
    if let PrecacheAction::Store { key, .. } = action {
        if key@ == old(work).key_bytes() {
            key_bytes_are_key(key, 0xc1, start, end);
        }
    }
}

/// The work on a witness is done only if it was found or stored.
pub proof fn done_witness_is_in_store(
    work: &mut Precaching,
    event: PrecacheEvent,
    action: PrecacheAction,
)
    requires
        call_ensures(Precaching::step, (work, event), action),
    ensures
        action is Done ==> event == (PrecacheEvent::LookedUp { present: true }) || event is Stored,
        action is Store ==> event is CanoeInputs || event is CanoeStdin,
{
}

/// Without storage, there is no precaching, and range proofs are made without it. With storage, the
/// work on a range starts with a look into the store, unless the witness is known to be stored; that
/// it has begun is noted.
pub proof fn work_on_range_starts(
    host: &mut WitnessHost,
    start_block: u64,
    end_block: u64,
    r: Result<PrecacheStart, HostError>,
)
    requires
        call_ensures(WitnessHost::precache_witness, (host, start_block, end_block), r),
    ensures
        !old(host).is_configured() ==> (r matches Err(HostError::StorageNotConfigured))
            && final(host).work() == old(host).work(),
        old(host).is_configured() ==> final(host).work().contains_key((start_block, end_block)),
        old(host).is_configured() && old(host).work().contains_key((start_block, end_block))
            && old(host).work()[(start_block, end_block)] ==> (r matches Ok(PrecacheStart::Done {
            key,
        }) && is_key_of(key, 0xc1, start_block, end_block)),
        old(host).is_configured() && !(old(host).work().contains_key((start_block, end_block))
            && old(host).work()[(start_block, end_block)]) ==> (r matches Ok(
            PrecacheStart::LookUp { key, work },
        ) && is_key_of(key, 0xc1, start_block, end_block) && work.start_block == start_block
            && work.end_block == end_block && work.state is LookingUp),
        forall|range: (u64, u64)| #[trigger]
            old(host).work().contains_key(range) ==> final(host).work().contains_key(range)
                && final(host).work()[range] == old(host).work()[range],
{
    match r {
        Ok(PrecacheStart::Done { key }) => {
            if key@ == cache_key::range_key_bytes(0xc1, start_block, end_block) {
                key_bytes_are_key(key, 0xc1, start_block, end_block);
            }
        },
        Ok(PrecacheStart::LookUp { key, .. }) => {
            if key@ == cache_key::range_key_bytes(0xc1, start_block, end_block) {
                key_bytes_are_key(key, 0xc1, start_block, end_block);
            }
        },
        _ => {},
    }
}

/// Once the witness of a range is noted as stored, the work on that range is done at once, and the
/// work on other ranges is as it was.
pub proof fn noted_witness_is_not_made_again(
    note: &mut WitnessHost,
    again: &mut WitnessHost,
    start_block: u64,
    end_block: u64,
    r: Result<PrecacheStart, HostError>,
    other: (u64, u64),
)
    requires
        old(note).is_configured(),
        call_ensures(WitnessHost::precached, (note, start_block, end_block), ()),
        *again == *final(note),
        call_ensures(WitnessHost::precache_witness, (again, start_block, end_block), r),
    ensures
        r matches Ok(PrecacheStart::Done { .. }),
        other != (start_block, end_block) ==> {
            &&& final(again).work().contains_key(other) <==> old(note).work().contains_key(other)
            &&& old(note).work().contains_key(other) ==> final(again).work()[other]
                == old(note).work()[other]
        },
{
    assert(final(note).work().contains_key((start_block, end_block)));
    assert(final(note).work()[(start_block, end_block)]);
}

/// Whether a witness was made is known once the work on it has begun. Otherwise the store is asked
/// for it under its key.
pub proof fn store_is_asked_if_work_has_not_begun(
    host: &WitnessHost,
    start_block: u64,
    end_block: u64,
    r: Result<PrecachedLookup, HostError>,
)
    requires
        call_ensures(WitnessHost::is_witness_precached, (host, start_block, end_block), r),
    ensures
        r is Err <==> !host.is_configured(),
        r matches Err(e) ==> e == HostError::StorageNotConfigured,
        r matches Ok(lookup) ==> (lookup is Begun <==> host.work().contains_key(
            (start_block, end_block),
        )),
        r matches Ok(PrecachedLookup::AskStore { key }) ==> is_key_of(
            key,
            0xc1,
            start_block,
            end_block,
        ),
{
    if let Ok(PrecachedLookup::AskStore { key }) = r {
        key_bytes_are_key(key, 0xc1, start_block, end_block);
    }
}

/// A host has storage unless none is configured, and makes range proofs from it if it has. A
/// directory that is not empty is where witnesses are stored; an empty one stands for memory.
pub proof fn storage_is_as_configured(
    data_dir: Option<String>,
    mode: StoreMode,
    host: WitnessHost,
    plan: RangeProofPlan,
)
    requires
        call_ensures(store_mode, (data_dir,), mode),
        call_ensures(WitnessHost::new, (&mode,), host),
        call_ensures(WitnessHost::range_proof_plan, (&host,), plan),
    ensures
        plan is Precached <==> data_dir is Some,
        host.is_configured() <==> data_dir is Some,
        mode is Memory <==> (data_dir matches Some(dir) && dir@.len() == 0),
        mode matches StoreMode::Disk(dir) ==> data_dir == Some(dir),
        forall|range: (u64, u64)| !#[trigger] host.work().contains_key(range),
{
}

/// Data is looked for up to 20 blocks after the L1 head, but never after the finalized block.
pub proof fn data_is_looked_for_in_finalized_blocks(l1_head: u64, finalized: u64, r: u64)
    requires
        call_ensures(safe_l1_head_number, (l1_head, finalized), r),
    ensures
        r <= finalized,
        r <= l1_head + 20,
        r == finalized || r == l1_head + 20,
{
}

/// A given L1 head is used as it is, and the calculated one only without it. Proofs are mocked only
/// if the variable says `true`.
pub proof fn given_values_count(
    l1_head_hash: Option<B256>,
    calculated: B256,
    head: B256,
    var: Option<&str>,
    mocked: bool,
)
    requires
        call_ensures(given_l1_head, (l1_head_hash, calculated), head),
        call_ensures(mock_mode, (var,), mocked),
    ensures
        l1_head_hash is Some ==> l1_head_hash == Some(head),
        l1_head_hash is None ==> head == calculated,
        mocked <==> (var matches Some(text) && text@ == seq!['t', 'r', 'u', 'e']),
{
    reveal_strlit("true");
    assert("true"@ =~= seq!['t', 'r', 'u', 'e']);
}

/// A witness is completed with the compressed proof that is given, or with none if none is. Any
/// other proof is refused, and so is a witness without EigenDA data.
pub proof fn witness_is_completed_with_compressed_proof(
    has_eigenda_witness: bool,
    canoe_proof: Option<CanoeProof>,
    r: Result<Option<Vec<u8>>, HostError>,
)
    requires
        call_ensures(complete_witness, (has_eigenda_witness, canoe_proof), r),
    ensures
        canoe_proof matches Some(CanoeProof::Other) ==> r == Err::<Option<Vec<u8>>, HostError>(
            HostError::NotCompressed,
        ),
        !(canoe_proof matches Some(CanoeProof::Other)) && !has_eigenda_witness ==> r == Err::<
            Option<Vec<u8>>,
            HostError,
        >(HostError::MissingEigenDAWitness),
        has_eigenda_witness && canoe_proof is None ==> r == Ok::<Option<Vec<u8>>, HostError>(None),
        forall|data: Vec<u8>|
            has_eigenda_witness && canoe_proof == Some(CanoeProof::Compressed(data)) ==> r == Ok::<
                Option<Vec<u8>>,
                HostError,
            >(Some(data)),
{
}

/// What was stored is given back as it is; that it is gone is an error.
pub proof fn stored_witness_is_given_back(
    buffer: Option<Vec<u8>>,
    r: Result<Vec<u8>, HostError>,
)
    requires
        call_ensures(stored_witness, (buffer,), r),
    ensures
        r is Ok <==> buffer is Some,
        r matches Ok(data) ==> buffer == Some(data),
        r matches Err(e) ==> e == HostError::EntryDisappeared,
{
}

/// The precacher makes a witness unless it is noted as stored. Without a fetcher it makes none, but
/// the work counts as begun.
pub proof fn precacher_makes_missing_witness(
    precacher: &mut WitnessPrecacher,
    start_block: u64,
    end_block: u64,
    r: Result<PrecacherWork, PrecacherError>,
)
    requires
        call_ensures(
            WitnessPrecacher::ensure_witness_precached,
            (precacher, start_block, end_block),
            r,
        ),
    ensures
        r is Err <==> !old(precacher).can_fetch(),
        r matches Err(e) ==> e == PrecacherError::FetcherNotSet,
        r matches Ok(PrecacherWork::Done { key }) ==> is_key_of(key, 0xca, start_block, end_block)
            && old(precacher).work().contains_key((start_block, end_block))
            && old(precacher).work()[(start_block, end_block)],
        r matches Ok(PrecacherWork::Generate { key }) ==> is_key_of(
            key,
            0xca,
            start_block,
            end_block,
        ) && !(old(precacher).work().contains_key((start_block, end_block))
            && old(precacher).work()[(start_block, end_block)]),
        final(precacher).work().contains_key((start_block, end_block)),
        forall|range: (u64, u64)| #[trigger]
            old(precacher).work().contains_key(range) ==> final(precacher).work().contains_key(
                range,
            ) && final(precacher).work()[range] == old(precacher).work()[range],
{
    match r {
        Ok(PrecacherWork::Done { key }) => {
            key_bytes_are_key(key, 0xca, start_block, end_block);
        },
        Ok(PrecacherWork::Generate { key }) => {
            key_bytes_are_key(key, 0xca, start_block, end_block);
        },
        _ => {},
    }
}

/// Once the precacher has noted a witness as stored, it does not make it again.
pub proof fn precacher_does_not_make_twice(
    note: &mut WitnessPrecacher,
    again: &mut WitnessPrecacher,
    start_block: u64,
    end_block: u64,
    r: Result<PrecacherWork, PrecacherError>,
)
    requires
        old(note).can_fetch(),
        call_ensures(WitnessPrecacher::precached, (note, start_block, end_block), ()),
        *again == *final(note),
        call_ensures(
            WitnessPrecacher::ensure_witness_precached,
            (again, start_block, end_block),
            r,
        ),
    ensures
        r matches Ok(PrecacherWork::Done { .. }),
{
    assert(final(note).work().contains_key((start_block, end_block)));
    assert(final(note).work()[(start_block, end_block)]);
}

/// A witness can be completed if it holds EigenDA data and there is a fetcher; the data is handed on
/// as it is.
pub proof fn completable_witness_has_data_and_fetcher(
    precacher: &WitnessPrecacher,
    data: Option<Vec<u8>>,
    r: Result<Vec<u8>, PrecacherError>,
)
    requires
        call_ensures(WitnessPrecacher::completable, (precacher, data), r),
    ensures
        r is Ok <==> data is Some && precacher.can_fetch(),
        r matches Ok(kept) ==> data == Some(kept),
        data is None ==> r == Err::<Vec<u8>, PrecacherError>(PrecacherError::MissingEigenDAWitness),
        data is Some && !precacher.can_fetch() ==> r == Err::<Vec<u8>, PrecacherError>(
            PrecacherError::FetcherNotSet,
        ),
{
}

} // verus!
