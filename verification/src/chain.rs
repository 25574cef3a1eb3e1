//! Running a message through a chain of stages.

use vstd::prelude::*;
use crate::processor::{Processor, ProcessorResult};

verus! {

/// How a chain ended.
#[derive(Debug, PartialEq, Eq)]
pub enum ChainOutcome<T> {
    /// Every stage continued: the message goes on to its destination.
    Forward(T),
    /// A stage broke the chain: the message is final and goes no further.
    ShortCircuit(T),
}

impl<T> ChainOutcome<T> {
    /// The message that the outcome carries, whichever variant it is.
    pub open spec fn message(self) -> T {
        match self {
            ChainOutcome::Forward(m) => m,
            ChainOutcome::ShortCircuit(m) => m,
        }
    }

    /// How a run ends whose last invoked stage gave `result`: a stage
    /// that continues leaves the message to be forwarded, a stage that
    /// breaks short-circuits with it.
    pub open spec fn after(result: ProcessorResult<T>) -> ChainOutcome<T> {
        match result {
            ProcessorResult::Continue(m) => ChainOutcome::Forward(m),
            ProcessorResult::Break(m) => ChainOutcome::ShortCircuit(m),
        }
    }

    /// Tells how a run ends whose last invoked stage gave `result`.
    pub fn ending_with(result: ProcessorResult<T>) -> (outcome: ChainOutcome<T>)
        ensures
            outcome == Self::after(result),
    {
        match result {
            ProcessorResult::Continue(m) => ChainOutcome::Forward(m),
            ProcessorResult::Break(m) => ChainOutcome::ShortCircuit(m),
        }
    }

    /// Takes the message out of the outcome.
    pub fn into_message(self) -> (m: T)
        ensures
            m == self.message(),
    {
        match self {
            ChainOutcome::Forward(m) => m,
            ChainOutcome::ShortCircuit(m) => m,
        }
    }
}

/// The message handed to stage `i` of a run with results `trace`: the
/// chain's input for the first stage, and after that what the stage before
/// carried.
pub open spec fn input_at<T>(message: T, trace: Seq<ProcessorResult<T>>, i: int) -> T {
    if i <= 0 {
        message
    } else {
        trace[i - 1].message()
    }
}

/// Whether `trace` lists, in order, the results of the stages that one run
/// of `chain` on `message` invokes: stage after stage from the first, each
/// on what the one before carried, going on after `Continue` only and
/// stopping short of the end after `Break` only.
pub open spec fn is_run<T, P: Processor<T> + ?Sized>(
    chain: Seq<Box<P>>,
    message: T,
    trace: Seq<ProcessorResult<T>>,
) -> bool {
    &&& trace.len() <= chain.len()
    &&& forall|i: int|
        0 <= i < trace.len() ==> #[trigger] chain[i].admits(input_at(message, trace, i), trace[i])
    &&& forall|i: int| 0 <= i < trace.len() - 1 ==> #[trigger] trace[i] is Continue
    &&& trace.len() < chain.len() ==> trace.len() > 0 && trace.last() is Break
}

/// The outcome of a run with results `trace` on `message`.
pub open spec fn outcome_of<T>(message: T, trace: Seq<ProcessorResult<T>>) -> ChainOutcome<T> {
    if trace.len() == 0 {
        ChainOutcome::Forward(message)
    } else {
        ChainOutcome::after(trace.last())
    }
}

/// Whether some run of `chain` on `message` ends in `outcome`.
pub open spec fn chain_yields<T, P: Processor<T> + ?Sized>(
    chain: Seq<Box<P>>,
    message: T,
    outcome: ChainOutcome<T>,
) -> bool {
    exists|trace: Seq<ProcessorResult<T>>|
        #[trigger] is_run(chain, message, trace) && outcome == outcome_of(message, trace)
}

/// Runs `message` through `chain` in order, stopping at the first stage
/// that breaks.
pub fn run_chain<T, P: Processor<T> + ?Sized>(chain: &Vec<Box<P>>, message: T) -> (outcome:
    ChainOutcome<T>)
    ensures
        chain_yields(chain@, message, outcome),
        chain@.len() == 0 ==> outcome == ChainOutcome::Forward(message),
{
    let ghost mut trace: Seq<ProcessorResult<T>> = Seq::empty();
    let mut current = message;
    let mut i: usize = 0;
    while i < chain.len()
        invariant
            i <= chain.len(),
            trace.len() == i,
            current == input_at(message, trace, i as int),
            forall|j: int|
                0 <= j < trace.len() ==> #[trigger] chain@[j].admits(
                    input_at(message, trace, j),
                    trace[j],
                ),
            forall|j: int| 0 <= j < trace.len() ==> #[trigger] trace[j] is Continue,
        decreases chain.len() - i,
    {
        let result = chain[i].process(current);
        proof {
            let ghost before = trace;
            trace = trace.push(result);
            assert forall|j: int| 0 <= j < trace.len() implies #[trigger] chain@[j].admits(
                input_at(message, trace, j),
                trace[j],
            ) by {
                if j < before.len() {
                    assert(input_at(message, trace, j) == input_at(message, before, j));
                    assert(trace[j] == before[j]);
                }
            }
        }
        match ChainOutcome::ending_with(result) {
            ChainOutcome::Forward(next) => {
                current = next;
            },
            stopped => {
                proof {
                    assert(is_run(chain@, message, trace));
                }
                return stopped;
            },
        }
        i = i + 1;
    }
    proof {
        assert(is_run(chain@, message, trace));
    }
    ChainOutcome::Forward(current)
}

} // verus!
