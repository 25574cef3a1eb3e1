//! What holds of every run of every chain.

use vstd::prelude::*;
use crate::chain::{chain_yields, input_at, is_run, outcome_of, ChainOutcome};
use crate::processor::{Processor, ProcessorResult};

verus! {

/// Whether each of the first `count` stages of `chain`, given its message of
/// `messages`, can only continue with the next message of `messages`.
pub open spec fn continues_along<T, P: Processor<T> + ?Sized>(
    chain: Seq<Box<P>>,
    messages: Seq<T>,
    count: int,
) -> bool {
    forall|i: int, result: ProcessorResult<T>|
        0 <= i < count && #[trigger] chain[i].admits(messages[i], result) ==> result
            == ProcessorResult::Continue(messages[i + 1])
}

/// A run whose first `count` stages can only continue along `messages` has
/// invoked at least `upto` of them, each with the result that `messages`
/// gives, for every `upto` up to `count`.
proof fn lemma_run_follows<T, P: Processor<T> + ?Sized>(
    chain: Seq<Box<P>>,
    message: T,
    trace: Seq<ProcessorResult<T>>,
    messages: Seq<T>,
    count: int,
    upto: int,
)
    requires
        is_run(chain, message, trace),
        0 <= upto <= count <= chain.len(),
        messages.len() > count,
        messages[0] == message,
        continues_along(chain, messages, count),
    ensures
        trace.len() >= upto,
        input_at(message, trace, upto) == messages[upto],
        forall|j: int| 0 <= j < upto ==> trace[j] == ProcessorResult::Continue(messages[j + 1]),
    decreases upto,
{
    if upto > 0 {
        lemma_run_follows(chain, message, trace, messages, count, upto - 1);
        let i = upto - 1;
        if trace.len() == i {
            // The run stopped short of the end, so its last result is a
            // break; but every result so far is a continue.
            assert(trace.len() < chain.len());
            assert(trace.last() is Break);
            assert(trace[i - 1] == ProcessorResult::Continue(messages[i]));
        }
        assert(chain[i].admits(input_at(message, trace, i), trace[i]));
    }
}

/// Where every stage continues, the chain forwards the composition of the
/// stages' transformations, taken in order: if stage `i` turns
/// `messages[i]` into `messages[i + 1]` and continues, for every stage of
/// the chain, then every run on `messages[0]` invokes all the stages, and
/// the one outcome is to forward the last message.
pub proof fn lemma_all_continue_forwards<T, P: Processor<T> + ?Sized>(
    chain: Seq<Box<P>>,
    messages: Seq<T>,
)
    requires
        messages.len() == chain.len() + 1,
        continues_along(chain, messages, chain.len() as int),
    ensures
        forall|trace: Seq<ProcessorResult<T>>| #[trigger]
            is_run(chain, messages[0], trace) ==> trace.len() == chain.len() && outcome_of(
                messages[0],
                trace,
            ) == ChainOutcome::Forward(messages.last()),
        forall|outcome: ChainOutcome<T>| #[trigger]
            chain_yields(chain, messages[0], outcome) ==> outcome == ChainOutcome::Forward(
                messages.last(),
            ),
{
    assert forall|trace: Seq<ProcessorResult<T>>| #[trigger]
        is_run(chain, messages[0], trace) implies trace.len() == chain.len() && outcome_of(
        messages[0],
        trace,
    ) == ChainOutcome::Forward(messages.last()) by {
        lemma_run_follows(
            chain,
            messages[0],
            trace,
            messages,
            chain.len() as int,
            chain.len() as int,
        );
    }
}

/// Where stage `k` (counted from 1) breaks with `broken` after the stages
/// before it continued, the one outcome is to short-circuit with `broken`,
/// and every run holds `k` results: no stage after the `k`-th is invoked.
pub proof fn lemma_break_short_circuits<T, P: Processor<T> + ?Sized>(
    chain: Seq<Box<P>>,
    messages: Seq<T>,
    k: int,
    broken: T,
)
    requires
        1 <= k <= chain.len(),
        messages.len() == k,
        continues_along(chain, messages, k - 1),
        forall|result: ProcessorResult<T>| #[trigger]
            chain[k - 1].admits(messages[k - 1], result) ==> result == ProcessorResult::Break(
                broken,
            ),
    ensures
        forall|trace: Seq<ProcessorResult<T>>| #[trigger]
            is_run(chain, messages[0], trace) ==> trace.len() == k && outcome_of(
                messages[0],
                trace,
            ) == ChainOutcome::ShortCircuit(broken),
        forall|outcome: ChainOutcome<T>| #[trigger]
            chain_yields(chain, messages[0], outcome) ==> outcome == ChainOutcome::ShortCircuit(
                broken,
            ),
{
    assert forall|trace: Seq<ProcessorResult<T>>| #[trigger]
        is_run(chain, messages[0], trace) implies trace.len() == k && outcome_of(
        messages[0],
        trace,
    ) == ChainOutcome::ShortCircuit(broken) by {
        lemma_run_follows(chain, messages[0], trace, messages, k - 1, k - 1);
        if trace.len() == k - 1 {
            // The run would have stopped before stage `k` without a break.
            assert(trace.len() < chain.len());
            assert(trace.last() is Break);
            assert(trace[k - 2] == ProcessorResult::Continue(messages[k - 1]));
        }
        assert(chain[k - 1].admits(input_at(messages[0], trace, k - 1), trace[k - 1]));
        assert(trace[k - 1] == ProcessorResult::Break(broken));
        if trace.len() > k {
            assert(trace[k - 1] is Continue);
        }
    }
}

/// The empty chain is the identity: its one run invokes nothing, and its
/// one outcome is to forward the message as it came.
pub proof fn lemma_empty_chain_forwards<T, P: Processor<T> + ?Sized>(chain: Seq<Box<P>>, message: T)
    requires
        chain.len() == 0,
    ensures
        is_run(chain, message, Seq::empty()),
        forall|trace: Seq<ProcessorResult<T>>| #[trigger]
            is_run(chain, message, trace) ==> trace.len() == 0,
        forall|outcome: ChainOutcome<T>|
            chain_yields(chain, message, outcome) <==> outcome == ChainOutcome::Forward(message),
{
    let nothing = Seq::<ProcessorResult<T>>::empty();
    assert(is_run(chain, message, nothing));
    assert(outcome_of(message, nothing) == ChainOutcome::Forward(message));
}

/// Order matters: take a chain of two stages that always continue, the same
/// two stages in the other order, and a message that the first chain turns
/// into `result` and the second into `swapped_result`. If the two results
/// differ, so do the outcomes of the two chains.
pub proof fn lemma_order_matters<T, P: Processor<T> + ?Sized>(
    chain: Seq<Box<P>>,
    swapped_chain: Seq<Box<P>>,
    message: T,
    between: T,
    result: T,
    swapped_between: T,
    swapped_result: T,
)
    requires
        chain.len() == 2,
        swapped_chain == seq![chain[1], chain[0]],
        continues_along(chain, seq![message, between, result], 2),
        continues_along(swapped_chain, seq![message, swapped_between, swapped_result], 2),
        result != swapped_result,
    ensures
        forall|outcome: ChainOutcome<T>, swapped: ChainOutcome<T>|
            #![trigger
                chain_yields(chain, message, outcome),
                chain_yields(swapped_chain, message, swapped),
            ]
            chain_yields(chain, message, outcome) && chain_yields(swapped_chain, message, swapped)
                ==> outcome == ChainOutcome::Forward(result) && swapped == ChainOutcome::Forward(
                swapped_result,
            ) && outcome != swapped,
{
    lemma_all_continue_forwards(chain, seq![message, between, result]);
    lemma_all_continue_forwards(swapped_chain, seq![message, swapped_between, swapped_result]);
}

/// Whether each stage of `chain` admits at most one result for each input.
pub open spec fn single_valued<T, P: Processor<T> + ?Sized>(chain: Seq<Box<P>>) -> bool {
    forall|i: int, input: T, one: ProcessorResult<T>, other: ProcessorResult<T>|
        0 <= i < chain.len() && #[trigger] chain[i].admits(input, one) && #[trigger] chain[i].admits(
            input,
            other,
        ) ==> one == other
}

/// Two runs of a chain of single-valued stages on one message agree on
/// their first `upto` results, as far as either goes.
proof fn lemma_runs_agree<T, P: Processor<T> + ?Sized>(
    chain: Seq<Box<P>>,
    message: T,
    one: Seq<ProcessorResult<T>>,
    other: Seq<ProcessorResult<T>>,
    upto: int,
)
    requires
        single_valued(chain),
        is_run(chain, message, one),
        is_run(chain, message, other),
        0 <= upto <= one.len(),
        upto <= other.len(),
    ensures
        forall|j: int| 0 <= j < upto ==> one[j] == other[j],
    decreases upto,
{
    if upto > 0 {
        lemma_runs_agree(chain, message, one, other, upto - 1);
        let i = upto - 1;
        assert(input_at(message, one, i) == input_at(message, other, i));
        assert(chain[i].admits(input_at(message, one, i), one[i]));
        assert(chain[i].admits(input_at(message, other, i), other[i]));
    }
}

/// A chain of single-valued stages has one outcome for each message: any
/// two runs on the same message, whenever and wherever they are made, give
/// the same results and end alike.
pub proof fn lemma_single_valued_chain_has_one_outcome<T, P: Processor<T> + ?Sized>(
    chain: Seq<Box<P>>,
    message: T,
)
    requires
        single_valued(chain),
    ensures
        forall|one: Seq<ProcessorResult<T>>, other: Seq<ProcessorResult<T>>|
            #![trigger is_run(chain, message, one), is_run(chain, message, other)]
            is_run(chain, message, one) && is_run(chain, message, other) ==> one == other,
        forall|one: ChainOutcome<T>, other: ChainOutcome<T>|
            #![trigger chain_yields(chain, message, one), chain_yields(chain, message, other)]
            chain_yields(chain, message, one) && chain_yields(chain, message, other) ==> one
                == other,
{
    assert forall|one: Seq<ProcessorResult<T>>, other: Seq<ProcessorResult<T>>|
        #![trigger is_run(chain, message, one), is_run(chain, message, other)]
        is_run(chain, message, one) && is_run(chain, message, other) implies one == other by {
        if one.len() <= other.len() {
            lemma_runs_agree(chain, message, one, other, one.len() as int);
            if one.len() < other.len() {
                // `one` stopped short, so it ends in a break, where `other`
                // went on.
                assert(one.last() is Break);
                assert(other[one.len() - 1] is Continue);
            }
        } else {
            lemma_runs_agree(chain, message, one, other, other.len() as int);
            assert(other.last() is Break);
            assert(one[other.len() - 1] is Continue);
        }
        assert(one =~= other);
    }
}

} // verus!
