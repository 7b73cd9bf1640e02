//! What the components do with what they receive.

use vstd::prelude::*;

verus! {

/// What a component waits for.
#[derive(Clone, Copy, Debug, PartialEq, Eq)]
pub enum Received {
    /// The service shuts down.
    Cancelled,
    /// The sender is gone.
    Closed,
    /// Some messages were lost.
    Lagged,
    /// A message has come.
    Message,
}

/// What a component does next.
#[derive(Clone, Copy, Debug, PartialEq, Eq)]
pub enum LoopAction {
    /// The component stops.
    Stop,
    /// The component waits again.
    Wait,
    /// The component does its work, then waits again.
    Work,
}

/// The challenger works on each notification. It stops when there will be none any more.
pub fn challenger_action(received: Received) -> (r: LoopAction)
    ensures
        r == (match received {
            Received::Cancelled | Received::Closed => LoopAction::Stop,
            Received::Lagged => LoopAction::Wait,
            Received::Message => LoopAction::Work,
        }),
{
    match received {
        Received::Cancelled => LoopAction::Stop,
        Received::Closed => LoopAction::Stop,
        Received::Lagged => LoopAction::Wait,
        Received::Message => LoopAction::Work,
    }
}

/// The creator works whenever its wait ends, until the service shuts down.
pub fn creator_action(received: Received) -> (r: LoopAction)
    ensures
        r == (if received == Received::Cancelled {
            LoopAction::Stop
        } else {
            LoopAction::Work
        }),
{
    match received {
        Received::Cancelled => LoopAction::Stop,
        Received::Closed => LoopAction::Work,
        Received::Lagged => LoopAction::Work,
        Received::Message => LoopAction::Work,
    }
}

/// The transaction manager handles each request. It stops when there will be none any more; its
/// channel loses none.
pub fn tx_manager_action(received: Received) -> (r: LoopAction)
    requires
        received != Received::Lagged,
    ensures
        r == (if received == Received::Message {
            LoopAction::Work
        } else {
            LoopAction::Stop
        }),
{
    match received {
        Received::Message => LoopAction::Work,
        _ => LoopAction::Stop,
    }
}

/// What the fetcher waits for.
#[derive(Clone, Copy, Debug, PartialEq, Eq)]
pub enum FetcherEvent {
    /// The service shuts down.
    Cancelled,
    /// It is time to fetch again.
    Tick,
    /// The senders of requests are gone.
    Closed,
    /// A request has come.
    Request,
}

/// What the fetcher does next.
#[derive(Clone, Copy, Debug, PartialEq, Eq)]
pub enum FetcherAction {
    Stop,
    /// Fetches on its own account.
    Idle,
    /// Handles the request.
    Handle,
}

pub fn fetcher_action(event: FetcherEvent) -> (r: FetcherAction)
    ensures
        r == (match event {
            FetcherEvent::Cancelled | FetcherEvent::Closed => FetcherAction::Stop,
            FetcherEvent::Tick => FetcherAction::Idle,
            FetcherEvent::Request => FetcherAction::Handle,
        }),
{
    match event {
        FetcherEvent::Cancelled => FetcherAction::Stop,
        FetcherEvent::Closed => FetcherAction::Stop,
        FetcherEvent::Tick => FetcherAction::Idle,
        FetcherEvent::Request => FetcherAction::Handle,
    }
}

/// Whether the fetcher fetches again at once after it has fetched on its own account: it does if
/// that has brought news. `changed` is `None` if it has failed.
pub fn fetches_again_at_once(changed: Option<bool>) -> (r: bool)
    ensures
        r == (changed == Some(true)),
{
    match changed {
        Some(changed) => changed,
        None => false,
    }
}

/// What the fetcher is asked for.
#[derive(Clone, Copy, Debug, PartialEq, Eq, Structural)]
pub enum FetcherRequest {
    /// A round of fetching.
    Sync,
    /// One game.
    SyncOne(u32),
}

/// How the fetcher handles a request.
#[derive(Clone, Copy, Debug, PartialEq, Eq, Structural)]
pub enum FetcherPlan {
    /// Fetches a batch, answers whether any game has changed, and tells all subscribers.
    FetchBatch,
    /// Fetches one game that exists, and answers whether it is news. Subscribers are not told.
    FetchGame(u32),
}

pub fn fetcher_plan(request: FetcherRequest) -> (r: FetcherPlan)
    ensures
        r == (match request {
            FetcherRequest::Sync => FetcherPlan::FetchBatch,
            FetcherRequest::SyncOne(game_index) => FetcherPlan::FetchGame(game_index),
        }),
{
    match request {
        FetcherRequest::Sync => FetcherPlan::FetchBatch,
        FetcherRequest::SyncOne(game_index) => FetcherPlan::FetchGame(game_index),
    }
}

} // verus!
