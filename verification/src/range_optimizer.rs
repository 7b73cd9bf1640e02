//! How far a range of L2 blocks can go before its data moves on to the next L1 block.

use vstd::prelude::*;

verus! {

/// What a step of the derivation pipeline has brought.
#[derive(Clone, Copy, Debug, PartialEq, Eq, Structural)]
pub enum PipelineStep {
    /// Attributes were prepared. They may be gone already.
    PreparedAttributes { available: bool },
    /// The pipeline has moved on to the next L1 block.
    AdvancedOrigin,
    /// The step has failed for now.
    Temporary,
    /// The pipeline has to be reset.
    Reset,
    /// The step has failed for good.
    Critical,
}

/// What to do next.
#[derive(Clone, Copy, Debug, PartialEq, Eq, Structural)]
pub enum OptimizerAction {
    /// Steps the pipeline on top of this L2 block.
    Step { l2_block_number: u64 },
    /// Resets the pipeline to this L2 block, then steps it there.
    ResetAndStep { l2_block_number: u64 },
    /// The range ends with this L2 block.
    Done { l2_block_number: u64 },
    Fail,
}

/// A range of L2 blocks that grows.
#[derive(Clone, Copy, Debug, PartialEq, Eq)]
pub struct RangeOptimizer {
    start: u64,
    l2_block_number: u64,
}

impl RangeOptimizer {
    /// The block before the first one of the range.
    pub closed spec fn first(&self) -> u64 {
        self.start
    }

    /// The last block of the range.
    pub closed spec fn last(&self) -> u64 {
        self.l2_block_number
    }

    /// The number of blocks that were derived.
    pub open spec fn derived(&self) -> int {
        self.last() - self.first()
    }

    pub open spec fn wf(&self) -> bool {
        self.first() <= self.last()
    }

    /// Starts on top of a block.
    pub fn new(l2_block_number: u64) -> (r: Self)
        ensures
            r.wf(),
            r.first() == l2_block_number,
            r.last() == l2_block_number,
    {
        RangeOptimizer { start: l2_block_number, l2_block_number }
    }

    /// What to do first: the pipeline is reset to the block that the range starts on.
    pub fn first_action(&self) -> (r: OptimizerAction)
        ensures
            r == (OptimizerAction::ResetAndStep { l2_block_number: self.first() }),
    {
        OptimizerAction::ResetAndStep { l2_block_number: self.start }
    }

    /// Decides what follows from a step of the pipeline. The range ends when the pipeline moves on
    /// to the next L1 block, if it holds any blocks.
    pub fn on_step(&mut self, step: PipelineStep) -> (r: OptimizerAction)
        requires
            old(self).wf(),
            step == (PipelineStep::PreparedAttributes { available: true }) ==> old(self).last()
                < u64::MAX,
        ensures
            final(self).wf(),
            final(self).first() == old(self).first(),
            final(self).last() == after_step(old(self).last() as int, step),
            r == (match step {
                PipelineStep::PreparedAttributes { .. } | PipelineStep::Temporary => {
                    OptimizerAction::Step { l2_block_number: final(self).last() }
                },
                PipelineStep::AdvancedOrigin => if old(self).derived() > 0 {
                    OptimizerAction::Done { l2_block_number: old(self).last() }
                } else {
                    OptimizerAction::Step { l2_block_number: old(self).last() }
                },
                PipelineStep::Reset => OptimizerAction::ResetAndStep {
                    l2_block_number: old(self).last(),
                },
                PipelineStep::Critical => OptimizerAction::Fail,
            }),
    {
        match step {
            PipelineStep::PreparedAttributes { available } => {
                if available {
                    self.l2_block_number = self.l2_block_number + 1;
                }
                OptimizerAction::Step { l2_block_number: self.l2_block_number }
            },
            PipelineStep::AdvancedOrigin => {
                if self.l2_block_number != self.start {
                    OptimizerAction::Done { l2_block_number: self.l2_block_number }
                } else {
                    OptimizerAction::Step { l2_block_number: self.l2_block_number }
                }
            },
            PipelineStep::Temporary => OptimizerAction::Step {
                l2_block_number: self.l2_block_number,
            },
            PipelineStep::Reset => OptimizerAction::ResetAndStep {
                l2_block_number: self.l2_block_number,
            },
            PipelineStep::Critical => OptimizerAction::Fail,
        }
    }
}

/// The last block of a range after a step: one more if the step brought attributes.
pub open spec fn after_step(last: int, step: PipelineStep) -> int {
    if step == (PipelineStep::PreparedAttributes { available: true }) {
        last + 1
    } else {
        last
    }
}

/// The last block of a range that starts on top of `start`, after `steps`.
pub open spec fn range_end(start: int, steps: Seq<PipelineStep>) -> int
    decreases steps.len(),
{
    if steps.len() == 0 {
        start
    } else {
        after_step(range_end(start, steps.drop_last()), steps.last())
    }
}

/// A range holds as many blocks as there were steps with attributes, so it is empty if and only if
/// there was none. Retries and resets do not count.
pub proof fn range_counts_attributes(start: int, steps: Seq<PipelineStep>)
    ensures
        start <= range_end(start, steps) <= start + steps.len(),
        range_end(start, steps) == start <==> forall|i: int|
            0 <= i < steps.len() ==> #[trigger] steps[i] != (PipelineStep::PreparedAttributes {
                available: true,
            }),
    decreases steps.len(),
{
    if steps.len() > 0 {
        let before = steps.drop_last();
        range_counts_attributes(start, before);
        assert forall|i: int| 0 <= i < before.len() implies before[i] == #[trigger] steps[i] by {}
        if range_end(start, steps) == start {
            assert forall|i: int| 0 <= i < steps.len() implies #[trigger] steps[i] != (
            PipelineStep::PreparedAttributes { available: true }) by {
                if i < before.len() {
                    assert(before[i] == steps[i]);
                }
            }
        } else if forall|i: int|
            0 <= i < steps.len() ==> #[trigger] steps[i] != (PipelineStep::PreparedAttributes {
                available: true,
            }) {
            assert(forall|i: int|
                0 <= i < before.len() ==> #[trigger] before[i] != (
                PipelineStep::PreparedAttributes { available: true }));
        }
    }
}

/// How many of the first `n` steps have brought attributes.
pub open spec fn attributes_among(steps: Seq<PipelineStep>, n: int) -> int
    decreases n,
{
    if n <= 0 {
        0
    } else {
        attributes_among(steps, n - 1) + if steps[n - 1] == (PipelineStep::PreparedAttributes {
            available: true,
        }) {
            1int
        } else {
            0int
        }
    }
}

/// A range grows by one block with each step that brings attributes, and with no other. It ends when
/// the pipeline moves on to the next L1 block after that has happened at least once, and with the
/// last block that was derived. Until then the pipeline is stepped on top of the last derived block,
/// after a reset if it needs one; what fails for good ends the work.
pub proof fn range_ends_with_last_derived_block(
    start: u64,
    optimizers: Seq<RangeOptimizer>,
    calls: Seq<&mut RangeOptimizer>,
    steps: Seq<PipelineStep>,
    actions: Seq<OptimizerAction>,
    n: int,
)
    requires
        optimizers.len() == steps.len() + 1,
        calls.len() == steps.len(),
        actions.len() == steps.len(),
        call_ensures(RangeOptimizer::new, (start,), optimizers[0]),
        forall|k: int|
            0 <= k < steps.len() ==> {
                &&& *(#[trigger] calls[k]) == optimizers[k]
                &&& call_ensures(RangeOptimizer::on_step, (calls[k], steps[k]), actions[k])
                &&& *final(calls[k]) == optimizers[k + 1]
            },
        0 <= n < steps.len(),
    ensures
        optimizers[n + 1].last() == start + attributes_among(steps, n + 1),
        optimizers[n + 1].first() == start,
        match actions[n] {
            OptimizerAction::Step { l2_block_number } => l2_block_number == start
                + attributes_among(steps, n + 1) && (steps[n] is PreparedAttributes || steps[n]
                is Temporary || (steps[n] is AdvancedOrigin && attributes_among(steps, n) == 0)),
            OptimizerAction::ResetAndStep { l2_block_number } => l2_block_number == start
                + attributes_among(steps, n) && steps[n] is Reset,
            OptimizerAction::Done { l2_block_number } => l2_block_number == start
                + attributes_among(steps, n) && steps[n] is AdvancedOrigin && attributes_among(
                steps,
                n,
            ) > 0,
            OptimizerAction::Fail => steps[n] is Critical,
        },
    decreases n,
{
    reveal_with_fuel(attributes_among, 2);
    assert(*calls[n] == optimizers[n]);
    if n > 0 {
        range_ends_with_last_derived_block(start, optimizers, calls, steps, actions, n - 1);
        attributes_are_counted(steps, n);
    }
}

proof fn attributes_are_counted(steps: Seq<PipelineStep>, n: int)
    ensures
        attributes_among(steps, n) >= 0,
    decreases n,
{
    if n > 0 {
        attributes_are_counted(steps, n - 1);
    }
}

/// The work starts with a reset of the pipeline to the block that the range starts on.
pub proof fn pipeline_is_reset_first(start: u64, optimizer: RangeOptimizer, action: OptimizerAction)
    requires
        call_ensures(RangeOptimizer::new, (start,), optimizer),
        call_ensures(RangeOptimizer::first_action, (&optimizer,), action),
    ensures
        action == (OptimizerAction::ResetAndStep { l2_block_number: start }),
{
}

} // verus!
