//! Who sends a transaction.

use vstd::prelude::*;

use crate::common::fixed_bytes::B256;
use crate::common::primitives::Duration;

verus! {

/// On whose behalf a transaction is sent.
#[derive(Clone, Copy, Debug, PartialEq, Eq, Structural)]
pub enum TxManagerSenderRole {
    Proposer,
    Challenger,
}

/// The key that a sender signs with, if there is one.
#[derive(Clone, Copy, Debug, PartialEq, Eq)]
pub struct SignerArgs {
    pub private_key: Option<B256>,
}

/// How transactions are sent.
#[derive(Clone, Copy, Debug, PartialEq, Eq)]
pub struct TxManagerConfig {
    pub num_confirmations: Option<u64>,
    /// How long to wait for a confirmation.
    pub timeout: Option<Duration>,
    pub proposer_signer_args: Option<SignerArgs>,
    pub challenger_signer_args: Option<SignerArgs>,
}

/// Why a transaction cannot be sent.
#[derive(Clone, Copy, Debug, PartialEq, Eq, Structural)]
pub enum TxManagerError {
    /// The sender's options name no key.
    NoSigner(TxManagerSenderRole),
    /// There are no options for the sender.
    NotConfigured(TxManagerSenderRole),
}

impl SignerArgs {
    /// The key to sign with.
    pub fn signing_key(&self, role: TxManagerSenderRole) -> (r: Result<B256, TxManagerError>)
        ensures
            r == (match self.private_key {
                Some(key) => Ok::<B256, TxManagerError>(key),
                None => Err(TxManagerError::NoSigner(role)),
            }),
    {
        match self.private_key {
            Some(key) => Ok(key),
            None => Err(TxManagerError::NoSigner(role)),
        }
    }
}

/// The key out of a sender's options. Options may be missing; a key in them may not.
pub open spec fn key_of(args: Option<SignerArgs>, role: TxManagerSenderRole) -> Result<
    Option<B256>,
    TxManagerError,
> {
    match args {
        Some(args) => match args.private_key {
            Some(key) => Ok(Some(key)),
            None => Err(TxManagerError::NoSigner(role)),
        },
        None => Ok(None),
    }
}

fn find_key(args: &Option<SignerArgs>, role: TxManagerSenderRole) -> (r: Result<
    Option<B256>,
    TxManagerError,
>)
    ensures
        r == key_of(*args, role),
{
    match args {
        Some(args) => match args.signing_key(role) {
            Ok(key) => Ok(Some(key)),
            Err(e) => Err(e),
        },
        None => Ok(None),
    }
}

impl TxManagerConfig {
    /// The keys of the proposer and of the challenger.
    pub fn signing_keys(&self) -> (r: Result<(Option<B256>, Option<B256>), TxManagerError>)
        ensures
            r == (match (
                key_of(self.proposer_signer_args, TxManagerSenderRole::Proposer),
                key_of(self.challenger_signer_args, TxManagerSenderRole::Challenger),
            ) {
                (Ok(proposer), Ok(challenger)) => Ok::<_, TxManagerError>((proposer, challenger)),
                (Err(e), _) => Err(e),
                (_, Err(e)) => Err(e),
            }),
    {
        let proposer = match find_key(&self.proposer_signer_args, TxManagerSenderRole::Proposer) {
            Ok(key) => key,
            Err(e) => {
                return Err(e);
            },
        };
        let challenger = match find_key(
            &self.challenger_signer_args,
            TxManagerSenderRole::Challenger,
        ) {
            Ok(key) => key,
            Err(e) => {
                return Err(e);
            },
        };
        Ok((proposer, challenger))
    }
}

/// Selects the sender of a transaction by its role.
pub fn select_sender<'a, P>(
    role: TxManagerSenderRole,
    proposer: Option<&'a P>,
    challenger: Option<&'a P>,
) -> (r: Result<&'a P, TxManagerError>)
    ensures
        r == (match (
            match role {
                TxManagerSenderRole::Proposer => proposer,
                TxManagerSenderRole::Challenger => challenger,
            }
        ) {
            Some(sender) => Ok::<&P, TxManagerError>(sender),
            None => Err(TxManagerError::NotConfigured(role)),
        }),
{
    let sender = match role {
        TxManagerSenderRole::Proposer => proposer,
        TxManagerSenderRole::Challenger => challenger,
    };
    match sender {
        Some(sender) => Ok(sender),
        None => Err(TxManagerError::NotConfigured(role)),
    }
}

} // verus!
