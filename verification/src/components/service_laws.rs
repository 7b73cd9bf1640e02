//! When the parts of the service work, wait and stop, and what they make of what they are told.

use vstd::prelude::*;

use crate::common::contract::ClaimData;
use crate::common::contract::ProposalStatus;
use crate::common::fixed_bytes::B256;
use crate::common::primitives::AnchorRootSnapshot;
use crate::common::primitives::Duration;
use crate::common::primitives::GameSnapshot;
use crate::common::state::State;
use crate::components::app_driver::AppDriver;
use crate::components::app_driver::AppDriverConfig;
use crate::components::game_fetcher::assemble_snapshot;
use crate::components::game_fetcher::store_metadata;
use crate::components::game_fetcher::FetchGameError;
use crate::components::game_fetcher::GameReplies;
use crate::components::run_loop::challenger_action;
use crate::components::run_loop::creator_action;
use crate::components::run_loop::fetcher_action;
use crate::components::run_loop::fetcher_plan;
use crate::components::run_loop::fetches_again_at_once;
use crate::components::run_loop::tx_manager_action;
use crate::components::run_loop::FetcherAction;
use crate::components::run_loop::FetcherEvent;
use crate::components::run_loop::FetcherPlan;
use crate::components::run_loop::FetcherRequest;
use crate::components::run_loop::LoopAction;
use crate::components::run_loop::Received;
use crate::components::tx_manager::select_sender;
use crate::components::tx_manager::TxManagerConfig;
use crate::components::tx_manager::TxManagerError;
use crate::components::tx_manager::TxManagerSenderRole;

verus! {

/// All parts stop when the service shuts down, and work when a message has come. When no more will
/// come, the challenger and the transaction manager stop; the creator goes on. Lost messages do not
/// stop the challenger.
pub proof fn parts_stop_with_the_service(
    received: Received,
    challenger: LoopAction,
    creator: LoopAction,
    tx_manager: LoopAction,
)
    requires
        call_ensures(challenger_action, (received,), challenger),
        call_ensures(creator_action, (received,), creator),
        call_ensures(tx_manager_action, (received,), tx_manager),
    ensures
        received is Cancelled ==> challenger is Stop && creator is Stop && tx_manager is Stop,
        received is Message ==> challenger is Work && creator is Work && tx_manager is Work,
        received is Closed ==> challenger is Stop && creator is Work && tx_manager is Stop,
        received is Lagged ==> challenger is Wait && creator is Work,
{
}

/// The fetcher fetches on its own when it is time, handles requests, and stops with the service or
/// when no more requests will come. A request for one game is a plan for that game.
pub proof fn fetcher_follows_events(
    event: FetcherEvent,
    action: FetcherAction,
    request: FetcherRequest,
    plan: FetcherPlan,
)
    requires
        call_ensures(fetcher_action, (event,), action),
        call_ensures(fetcher_plan, (request,), plan),
    ensures
        action is Idle <==> event is Tick,
        action is Handle <==> event is Request,
        action is Stop <==> event is Cancelled || event is Closed,
        request is Sync <==> plan is FetchBatch,
        forall|i: u32|
            request == FetcherRequest::SyncOne(i) ==> plan == FetcherPlan::FetchGame(i),
{
}

/// After a round with progress the next comes at once; after one without progress, or without a
/// reply, it comes after the interval. The first comes at once.
pub proof fn progress_is_followed_up_at_once(
    config: AppDriverConfig,
    first: AppDriver,
    first_delay: Duration,
    note: &mut AppDriver,
    next: &AppDriver,
    has_progress: Option<bool>,
    delay: Duration,
    again: bool,
)
    requires
        call_ensures(AppDriver::new, (config,), first),
        call_ensures(AppDriver::delay, (&first,), first_delay),
        note.interval() == config.fetch_interval,
        call_ensures(AppDriver::note_reply, (note, has_progress), ()),
        *next == *final(note),
        call_ensures(AppDriver::delay, (next,), delay),
        call_ensures(fetches_again_at_once, (has_progress,), again),
    ensures
        first.interval() == config.fetch_interval,
        first_delay.secs == 0 && first_delay.nanos == 0,
        has_progress == Some(true) ==> delay.secs == 0 && delay.nanos == 0 && again,
        has_progress != Some(true) ==> delay == config.fetch_interval && !again,
        next.interval() == config.fetch_interval,
{
}

/// A transaction is sent by the sender whose role it has, and by no other. Without that sender it is
/// not sent.
pub proof fn role_selects_sender<P>(
    role: TxManagerSenderRole,
    proposer: Option<&P>,
    challenger: Option<&P>,
    r: Result<&P, TxManagerError>,
)
    requires
        call_ensures(select_sender::<P>, (role, proposer, challenger), r),
    ensures
        role is Proposer && proposer is Some ==> r == Ok::<&P, TxManagerError>(proposer->0),
        role is Challenger && challenger is Some ==> r == Ok::<&P, TxManagerError>(challenger->0),
        role is Proposer && proposer is None ==> r == Err::<&P, TxManagerError>(
            TxManagerError::NotConfigured(role),
        ),
        role is Challenger && challenger is None ==> r == Err::<&P, TxManagerError>(
            TxManagerError::NotConfigured(role),
        ),
{
}

/// Each sender signs with its own key. Options without a key are an error, that of the proposer
/// first; a sender without options has no key.
pub proof fn senders_sign_with_their_keys(
    config: &TxManagerConfig,
    r: Result<(Option<B256>, Option<B256>), TxManagerError>,
)
    requires
        call_ensures(TxManagerConfig::signing_keys, (config,), r),
    ensures
        config.proposer_signer_args is Some && config.proposer_signer_args->0.private_key is None
            ==> r == Err::<(Option<B256>, Option<B256>), TxManagerError>(
            TxManagerError::NoSigner(TxManagerSenderRole::Proposer),
        ),
        r matches Err(e) ==> e == TxManagerError::NoSigner(TxManagerSenderRole::Proposer) || (e
            == TxManagerError::NoSigner(TxManagerSenderRole::Challenger)
            && config.challenger_signer_args is Some
            && config.challenger_signer_args->0.private_key is None),
        r matches Ok(keys) ==> {
            &&& config.proposer_signer_args is None ==> keys.0 is None
            &&& config.proposer_signer_args is Some ==> keys.0
                == config.proposer_signer_args->0.private_key && keys.0 is Some
            &&& config.challenger_signer_args is None ==> keys.1 is None
            &&& config.challenger_signer_args is Some ==> keys.1
                == config.challenger_signer_args->0.private_key && keys.1 is Some
        },
{
}

/// A snapshot says what the contracts say. What every game has must be known; the first of these
/// that is not is the reason why there is no snapshot. What a game need not have is zero if it is
/// not known.
pub proof fn snapshot_says_what_contracts_say(
    replies: &GameReplies,
    r: Result<GameSnapshot, FetchGameError>,
)
    requires
        call_ensures(assemble_snapshot, (replies,), r),
    ensures
        r is Ok <==> replies.root_claim is Some && replies.l2_block_number is Some
            && replies.status is Some && replies.is_blacklisted is Some,
        replies.root_claim is None ==> r == Err::<GameSnapshot, FetchGameError>(
            FetchGameError::RootClaim,
        ),
        replies.root_claim is Some && replies.l2_block_number is None ==> r == Err::<
            GameSnapshot,
            FetchGameError,
        >(FetchGameError::L2BlockNumber),
        replies.root_claim is Some && replies.l2_block_number is Some && replies.status is None ==> r
            == Err::<GameSnapshot, FetchGameError>(FetchGameError::Status),
        replies.root_claim is Some && replies.l2_block_number is Some && replies.status is Some
            && replies.is_blacklisted is None ==> r == Err::<GameSnapshot, FetchGameError>(
            FetchGameError::Blacklist,
        ),
        r matches Ok(game) ==> {
            &&& game.game_type == replies.game_type
            &&& game.created_at == replies.created_at
            &&& game.game_address == replies.game_address
            &&& game.output_root == replies.root_claim->0
            &&& game.claim_block == replies.l2_block_number->0
            &&& game.game_status == replies.status->0
            &&& game.is_blacklisted == replies.is_blacklisted->0
            &&& replies.starting_block_number is Some ==> game.start_block
                == replies.starting_block_number->0
            &&& replies.starting_block_number is None ==> game.start_block == 0
            &&& replies.parent_index is Some ==> game.parent_index == replies.parent_index->0
            &&& replies.parent_index is None ==> game.parent_index == 0
            &&& replies.claim_data is Some ==> game.claim_data == replies.claim_data->0
            &&& replies.claim_data is None ==> is_blank(game.claim_data)
        },
{
}

/// Claim data of which nothing is known: zero throughout, and not challenged.
pub open spec fn is_blank(data: ClaimData) -> bool {
    &&& data.parent_index == 0
    &&& data.deadline == 0
    &&& data.status == ProposalStatus::Unchallenged
    &&& forall|i: int| 0 <= i < 20 ==> #[trigger] data.prover@[i] == 0
    &&& forall|i: int| 0 <= i < 20 ==> #[trigger] data.countered_by@[i] == 0
    &&& forall|i: int| 0 <= i < 32 ==> #[trigger] data.claim@[i] == 0
}

/// The number of games and the anchor root are known as they are given, and nothing else changes.
pub proof fn metadata_is_known(state: &mut State, game_count: u32, anchor: AnchorRootSnapshot)
    requires
        call_ensures(store_metadata, (state, game_count, anchor), ()),
    ensures
        final(state).game_count == game_count,
        final(state).anchor_root == anchor,
        final(state).games@ == old(state).games@,
        final(state).fetched_range == old(state).fetched_range,
        final(state).retirement_timestamp == old(state).retirement_timestamp,
        final(state).correct_output_roots@ == old(state).correct_output_roots@,
{
}

} // verus!
