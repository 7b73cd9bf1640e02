//! What a run that makes a witness asks for, event by event and from its start to its end.

use vstd::prelude::*;

use crate::eigenda::witness_run::split_cert_proof;
use crate::eigenda::witness_run::DataSource;
use crate::eigenda::witness_run::RunAction;
use crate::eigenda::witness_run::RunEvent;
use crate::eigenda::witness_run::RunState;
use crate::eigenda::witness_run::StdinParts;
use crate::eigenda::witness_run::WitnessRun;

verus! {

/// The first payload is proved if there is any. Without payloads, the certificates are next. On
/// Ethereum, there is nothing to prove.
pub proof fn proofs_start_with_first_payload(
    run: &mut WitnessRun,
    payloads: usize,
    action: RunAction,
)
    requires
        call_ensures(WitnessRun::step, (run, RunEvent::Collected { payloads }), action),
        old(run).state is Collecting,
    ensures
        old(run).source is EigenDA && payloads > 0 ==> action == (RunAction::ProvePayload {
            index: 0,
        }) && final(run).state == (RunState::ProvingPayloads { total: payloads }),
        old(run).source is EigenDA && payloads == 0 ==> action is ProveCerts && final(run).state
            is ProvingCerts,
        old(run).source is Ethereum ==> action is Assemble && final(run).state is Stopped,
        final(run).source == old(run).source,
        final(run).payload_proofs@ == old(run).payload_proofs@,
{
}

/// A proof is kept after those before it. The next payload is proved if there is one left, and the
/// certificates otherwise.
pub proof fn next_payload_is_proved(
    run: &mut WitnessRun,
    proof_bytes: [u8; 64],
    total: usize,
    action: RunAction,
)
    requires
        call_ensures(WitnessRun::step, (run, RunEvent::PayloadProof(proof_bytes)), action),
        old(run).state == (RunState::ProvingPayloads { total }),
        old(run).payload_proofs@.len() < total,
    ensures
        final(run).payload_proofs@ == old(run).payload_proofs@.push(proof_bytes),
        final(run).source == old(run).source,
        final(run).payload_proofs@.len() < total ==> action == (RunAction::ProvePayload {
            index: final(run).payload_proofs@.len() as usize,
        }) && final(run).state == old(run).state,
        final(run).payload_proofs@.len() == total ==> action is ProveCerts && final(run).state
            is ProvingCerts,
{
}

/// A pipeline is created and run only if the inputs call for one. Then the data is collected in any
/// case.
pub proof fn pipeline_runs_if_called_for(run: &mut WitnessRun, event: RunEvent, action: RunAction)
    requires
        call_ensures(WitnessRun::step, (run, event), action),
    ensures
        old(run).state is LoadingInputs && event == (RunEvent::Inputs { needs_pipeline: true })
            ==> action is CreatePipeline && final(run).state is CreatingPipeline,
        old(run).state is LoadingInputs && event == (RunEvent::Inputs { needs_pipeline: false })
            ==> action is Collect && final(run).state is Collecting,
        old(run).state is CreatingPipeline && event is Pipeline ==> action is Execute
            && final(run).state is Executing,
        old(run).state is Executing && event is Executed ==> action is Collect && final(run).state
            is Collecting,
{
}

/// The witness holds a proof of the certificates if there is one. What fails ends the run, and
/// nothing else does so without a witness.
pub proof fn run_ends_with_witness_or_failure(
    run: &mut WitnessRun,
    event: RunEvent,
    action: RunAction,
)
    requires
        old(run).expects(event),
        call_ensures(WitnessRun::step, (run, event), action),
    ensures
        event is Failed <==> action is Fail,
        event matches RunEvent::CertProof { present } ==> action == (
        RunAction::AssembleWithProofs { has_cert_proof: present }),
        action is AssembleWithProofs ==> event is CertProof,
        final(run).state is Stopped <==> action is Fail || action is Assemble
            || action is AssembleWithProofs,
{
}

/// Among the first `k` events, data with `n` payloads was collected.
pub open spec fn has_collected(events: Seq<RunEvent>, k: int, n: usize) -> bool {
    exists|c: int| 0 <= c < k && #[trigger] events[c] == (RunEvent::Collected { payloads: n })
}

/// The proofs among the first `k` events, in their order.
pub open spec fn proofs_among(events: Seq<RunEvent>, k: int) -> Seq<[u8; 64]>
    decreases k,
{
    if k <= 0 {
        Seq::empty()
    } else if let RunEvent::PayloadProof(proof_bytes) = events[k - 1] {
        proofs_among(events, k - 1).push(proof_bytes)
    } else {
        proofs_among(events, k - 1)
    }
}

/// What holds of a run after `k` events.
proof fn run_keeps_count(
    source: DataSource,
    runs: Seq<WitnessRun>,
    calls: Seq<&mut WitnessRun>,
    events: Seq<RunEvent>,
    actions: Seq<RunAction>,
    k: int,
)
    requires
        runs.len() == events.len() + 1,
        calls.len() == events.len(),
        actions.len() == events.len(),
        call_ensures(WitnessRun::new, (source,), runs[0]),
        forall|k: int|
            0 <= k < events.len() ==> {
                &&& *(#[trigger] calls[k]) == runs[k]
                &&& runs[k].expects(events[k])
                &&& call_ensures(WitnessRun::step, (calls[k], events[k]), actions[k])
                &&& *final(calls[k]) == runs[k + 1]
            },
        0 <= k <= events.len(),
    ensures
        runs[k].source == source,
        runs[k].payload_proofs@ == proofs_among(events, k),
        match runs[k].state {
            RunState::ProvingPayloads { total } => {
                &&& has_collected(events, k, total)
                &&& forall|n: usize| #[trigger] has_collected(events, k, n) ==> n == total
                &&& runs[k].payload_proofs@.len() < total
                &&& source is EigenDA
            },
            RunState::ProvingCerts => {
                &&& has_collected(events, k, runs[k].payload_proofs@.len() as usize)
                &&& forall|n: usize| #[trigger]
                    has_collected(events, k, n) ==> n == runs[k].payload_proofs@.len()
                &&& source is EigenDA
            },
            RunState::Stopped => true,
            _ => {
                &&& forall|n: usize| !#[trigger] has_collected(events, k, n)
                &&& runs[k].payload_proofs@.len() == 0
            },
        },
    decreases k,
{
    if k > 0 {
        let m = k - 1;
        run_keeps_count(source, runs, calls, events, actions, m);
        assert(*calls[m] == runs[m]);
        assert forall|n: usize| #[trigger] has_collected(events, k, n) <==> has_collected(
            events,
            m,
            n,
        ) || events[m] == (RunEvent::Collected { payloads: n }) by {
            if has_collected(events, k, n) {
                let c = choose|c: int|
                    0 <= c < k && #[trigger] events[c] == (RunEvent::Collected { payloads: n });
            }
        }
    }
}

/// The certificates of an EigenDA range are proved once every payload is: if data with `n` payloads
/// was collected, there are `n` proofs when the proof of the certificates is asked for.
pub proof fn certificates_come_after_all_payloads(
    source: DataSource,
    runs: Seq<WitnessRun>,
    calls: Seq<&mut WitnessRun>,
    events: Seq<RunEvent>,
    actions: Seq<RunAction>,
    m: int,
    n: usize,
)
    requires
        runs.len() == events.len() + 1,
        calls.len() == events.len(),
        actions.len() == events.len(),
        call_ensures(WitnessRun::new, (source,), runs[0]),
        forall|k: int|
            0 <= k < events.len() ==> {
                &&& *(#[trigger] calls[k]) == runs[k]
                &&& runs[k].expects(events[k])
                &&& call_ensures(WitnessRun::step, (calls[k], events[k]), actions[k])
                &&& *final(calls[k]) == runs[k + 1]
            },
        0 <= m < events.len(),
        actions[m] is ProveCerts,
    ensures
        source is EigenDA,
        exists|p: usize| #[trigger] has_collected(events, m + 1, p),
        has_collected(events, m + 1, n) ==> runs[m + 1].payload_proofs@.len() == n,
{
    run_keeps_count(source, runs, calls, events, actions, m);
    run_keeps_count(source, runs, calls, events, actions, m + 1);
    assert(*calls[m] == runs[m]);
    assert(has_collected(events, m + 1, runs[m + 1].payload_proofs@.len() as usize));
}

/// A witness with proofs is made of one proof for each payload that was collected, in the order in
/// which the proofs have come. The payloads are asked for in turn: when the one at `index` is, there
/// are `index` proofs, and the payload is one of those that were collected.
pub proof fn witness_holds_proof_of_each_payload(
    source: DataSource,
    runs: Seq<WitnessRun>,
    calls: Seq<&mut WitnessRun>,
    events: Seq<RunEvent>,
    actions: Seq<RunAction>,
    m: int,
    n: usize,
)
    requires
        runs.len() == events.len() + 1,
        calls.len() == events.len(),
        actions.len() == events.len(),
        call_ensures(WitnessRun::new, (source,), runs[0]),
        forall|k: int|
            0 <= k < events.len() ==> {
                &&& *(#[trigger] calls[k]) == runs[k]
                &&& runs[k].expects(events[k])
                &&& call_ensures(WitnessRun::step, (calls[k], events[k]), actions[k])
                &&& *final(calls[k]) == runs[k + 1]
            },
        0 <= m < events.len(),
        has_collected(events, m + 1, n),
    ensures
        actions[m] is AssembleWithProofs ==> runs[m + 1].payload_proofs@.len() == n
            && source is EigenDA,
        actions[m] matches RunAction::ProvePayload { index } ==> index
            == runs[m + 1].payload_proofs@.len() && index < n,
        runs[m + 1].payload_proofs@ == proofs_among(events, m + 1),
{
    run_keeps_count(source, runs, calls, events, actions, m);
    run_keeps_count(source, runs, calls, events, actions, m + 1);
    assert(*calls[m] == runs[m]);
    assert(has_collected(events, m + 1, n) <==> has_collected(events, m, n) || events[m] == (
    RunEvent::Collected { payloads: n })) by {
        let c = choose|c: int|
            0 <= c < m + 1 && #[trigger] events[c] == (RunEvent::Collected { payloads: n });
    }
}

/// The proof of the certificates goes first if the witness holds one, and the data is serialized
/// again without it only then.
pub proof fn certificate_proof_is_taken_out(eigenda: Option<Option<Vec<u8>>>, parts: StdinParts)
    requires
        call_ensures(split_cert_proof, (eigenda,), parts),
    ensures
        forall|proof_bytes: Vec<u8>|
            eigenda == Some(Some(proof_bytes)) ==> parts.cert_proof == Some(proof_bytes)
                && parts.reserialize,
        eigenda is None || eigenda->0 is None ==> parts.cert_proof is None && !parts.reserialize,
{
}

} // verus!
