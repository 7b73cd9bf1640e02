//! A run of the derivation that collects all data it reads.

use vstd::prelude::*;

verus! {

/// Where the data of the blocks lies.
#[derive(Clone, Copy, Debug, PartialEq, Eq, Structural)]
pub enum DataSource {
    /// On L1 alone.
    Ethereum,
    EigenDA,
}

/// How far a run has come.
#[derive(Clone, Copy, Debug, PartialEq, Eq, Structural)]
pub enum RunState {
    /// The inputs of the pipeline were asked for.
    LoadingInputs,
    /// The pipeline was asked for.
    CreatingPipeline,
    /// The pipeline is run.
    Executing,
    /// The collected data was asked for.
    Collecting,
    /// The proof of one of `total` payloads was asked for.
    ProvingPayloads { total: usize },
    /// The proof of the certificates was asked for.
    ProvingCerts,
    Stopped,
}

/// What comes back.
#[derive(Clone, Copy, Debug, PartialEq, Eq)]
pub enum RunEvent {
    /// The inputs. There is nothing to derive if they do not call for a pipeline.
    Inputs { needs_pipeline: bool },
    Pipeline,
    Executed,
    /// The collected data, with this number of EigenDA payloads.
    Collected { payloads: usize },
    /// The proof of a payload.
    PayloadProof([u8; 64]),
    /// The proof of the certificates, if there is anything to prove.
    CertProof { present: bool },
    /// What was asked for has failed.
    Failed,
}

/// What to do next.
#[derive(Clone, Copy, Debug, PartialEq, Eq, Structural)]
pub enum RunAction {
    CreatePipeline,
    Execute,
    /// Takes the data out of the collectors.
    Collect,
    /// Proves the payload that stands at this place.
    ProvePayload { index: usize },
    /// Proves the certificates.
    ProveCerts,
    /// Makes a witness of the collected data alone.
    Assemble,
    /// Makes a witness of the collected data and the proofs, with or without one of the
    /// certificates.
    AssembleWithProofs { has_cert_proof: bool },
    Fail,
}

/// A run that makes a witness.
#[derive(Debug)]
pub struct WitnessRun {
    pub source: DataSource,
    pub state: RunState,
    /// The proofs of the payloads so far, in the payloads' order.
    pub payload_proofs: Vec<[u8; 64]>,
}

impl WitnessRun {
    /// While payloads are proved, there is one left.
    pub open spec fn wf(&self) -> bool {
        &&& self.state matches RunState::ProvingPayloads { total } ==> self.payload_proofs@.len()
            < total
        &&& self.state is LoadingInputs || self.state is CreatingPipeline || self.state
            is Executing || self.state is Collecting ==> self.payload_proofs@.len() == 0
    }

    /// The event can come in this state.
    pub open spec fn expects(&self, event: RunEvent) -> bool {
        match self.state {
            RunState::LoadingInputs => event is Inputs || event is Failed,
            RunState::CreatingPipeline => event is Pipeline || event is Failed,
            RunState::Executing => event is Executed || event is Failed,
            RunState::Collecting => event is Collected || event is Failed,
            RunState::ProvingPayloads { .. } => event is PayloadProof,
            RunState::ProvingCerts => event is CertProof || event is Failed,
            RunState::Stopped => false,
        }
    }

    /// What follows from this state and `event`: the next state and the action.
    pub open spec fn next(&self, event: RunEvent) -> (RunState, RunAction) {
        match (self.state, event) {
            (_, RunEvent::Failed) => (RunState::Stopped, RunAction::Fail),
            (RunState::LoadingInputs, RunEvent::Inputs { needs_pipeline }) => if needs_pipeline {
                (RunState::CreatingPipeline, RunAction::CreatePipeline)
            } else {
                (RunState::Collecting, RunAction::Collect)
            },
            (RunState::CreatingPipeline, _) => (RunState::Executing, RunAction::Execute),
            (RunState::Executing, _) => (RunState::Collecting, RunAction::Collect),
            (RunState::Collecting, RunEvent::Collected { payloads }) => match self.source {
                DataSource::Ethereum => (RunState::Stopped, RunAction::Assemble),
                DataSource::EigenDA => if payloads == 0 {
                    (RunState::ProvingCerts, RunAction::ProveCerts)
                } else {
                    (
                        RunState::ProvingPayloads { total: payloads },
                        RunAction::ProvePayload { index: 0 },
                    )
                },
            },
            (RunState::ProvingPayloads { total }, _) => if self.payload_proofs@.len() + 1
                == total {
                (RunState::ProvingCerts, RunAction::ProveCerts)
            } else {
                (
                    RunState::ProvingPayloads { total },
                    RunAction::ProvePayload { index: (self.payload_proofs@.len() + 1) as usize },
                )
            },
            (RunState::ProvingCerts, RunEvent::CertProof { present }) => (
                RunState::Stopped,
                RunAction::AssembleWithProofs { has_cert_proof: present },
            ),
            _ => (RunState::Stopped, RunAction::Fail),
        }
    }

    /// Starts with the inputs of the pipeline.
    pub fn new(source: DataSource) -> (r: Self)
        ensures
            r.wf(),
            r.source == source,
            r.state is LoadingInputs,
            r.payload_proofs@.len() == 0,
    {
        WitnessRun { source, state: RunState::LoadingInputs, payload_proofs: Vec::new() }
    }

    /// Decides what follows from an event.
    pub fn step(&mut self, event: RunEvent) -> (r: RunAction)
        requires
            old(self).wf(),
            old(self).expects(event),
        ensures
            final(self).wf(),
            final(self).source == old(self).source,
            (final(self).state, r) == old(self).next(event),
            final(self).payload_proofs@ == (match event {
                RunEvent::PayloadProof(payload_proof) => old(self).payload_proofs@.push(
                    payload_proof,
                ),
                _ => old(self).payload_proofs@,
            }),
    {
        let (state, action) = match (self.state, event) {
            (_, RunEvent::Failed) => (RunState::Stopped, RunAction::Fail),
            (RunState::LoadingInputs, RunEvent::Inputs { needs_pipeline }) => {
                if needs_pipeline {
                    (RunState::CreatingPipeline, RunAction::CreatePipeline)
                } else {
                    (RunState::Collecting, RunAction::Collect)
                }
            },
            (RunState::CreatingPipeline, _) => (RunState::Executing, RunAction::Execute),
            (RunState::Executing, _) => (RunState::Collecting, RunAction::Collect),
            (RunState::Collecting, RunEvent::Collected { payloads }) => match self.source {
                DataSource::Ethereum => (RunState::Stopped, RunAction::Assemble),
                DataSource::EigenDA => {
                    if payloads == 0 {
                        (RunState::ProvingCerts, RunAction::ProveCerts)
                    } else {
                        (
                            RunState::ProvingPayloads { total: payloads },
                            RunAction::ProvePayload { index: 0 },
                        )
                    }
                },
            },
            (RunState::ProvingPayloads { total }, RunEvent::PayloadProof(payload_proof)) => {
                self.payload_proofs.push(payload_proof);
                let proved: usize = self.payload_proofs.len();
                if proved == total {
                    (RunState::ProvingCerts, RunAction::ProveCerts)
                } else {
                    (
                        RunState::ProvingPayloads { total },
                        RunAction::ProvePayload { index: proved },
                    )
                }
            },
            (RunState::ProvingCerts, RunEvent::CertProof { present }) => (
                RunState::Stopped,
                RunAction::AssembleWithProofs { has_cert_proof: present },
            ),
            _ => (RunState::Stopped, RunAction::Fail),
        };
        self.state = state;
        action
    }
}

/// The certificates are proved once every payload is: there are as many proofs as payloads.
pub proof fn all_payloads_are_proved(before: WitnessRun, event: RunEvent, total: usize)
    requires
        before.wf(),
        before.state == (RunState::ProvingPayloads { total }),
        before.expects(event),
        before.next(event).1 == RunAction::ProveCerts,
    ensures
        before.payload_proofs@.len() + 1 == total,
{
}

/// The payloads are proved one after the other: the proof that was just noted is that of the payload
/// before the one that is asked for.
pub proof fn payloads_are_proved_in_order(
    before: WitnessRun,
    event: RunEvent,
    total: usize,
    index: usize,
)
    requires
        before.wf(),
        before.state == (RunState::ProvingPayloads { total }),
        before.expects(event),
        before.next(event).1 == (RunAction::ProvePayload { index }),
    ensures
        index == before.payload_proofs@.len() + 1,
        index < total,
{
}

/// What goes into the input stream of a range proof: the proof of the certificates first, if there
/// is one, then the witness without it.
#[derive(Debug, PartialEq, Eq)]
pub struct StdinParts {
    /// The proof of the certificates.
    pub cert_proof: Option<Vec<u8>>,
    /// Whether the EigenDA data has to be serialized again without the proof.
    pub reserialize: bool,
}

/// Takes the proof of the certificates out of a witness. `eigenda` is the witness's EigenDA data, if
/// there is any, with the proof that it holds, if it holds one.
pub fn split_cert_proof(eigenda: Option<Option<Vec<u8>>>) -> (r: StdinParts)
    ensures
        r.cert_proof == (match eigenda {
            Some(cert_proof) => cert_proof,
            None => None,
        }),
        r.reserialize == (r.cert_proof is Some),
{
    match eigenda {
        Some(Some(cert_proof)) => StdinParts { cert_proof: Some(cert_proof), reserialize: true },
        _ => StdinParts { cert_proof: None, reserialize: false },
    }
}

} // verus!
