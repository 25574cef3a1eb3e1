//! The contract between a pipeline and its stages.

use vstd::prelude::*;
use crate::message::{Request, Response};

verus! {

/// What a processor decides about a message: go on, or stop here.
#[derive(Debug, PartialEq, Eq)]
pub enum ProcessorResult<T> {
    /// Hand the message to the next stage.
    Continue(T),
    /// Stop: the message is the chain's final output.
    Break(T),
}

impl<T> ProcessorResult<T> {
    /// The message that the result carries, whichever variant it is.
    pub open spec fn message(self) -> T {
        match self {
            ProcessorResult::Continue(m) => m,
            ProcessorResult::Break(m) => m,
        }
    }
}

/// One stage of a chain. A stage knows nothing of its position or of the
/// other stages; it takes a message and gives back exactly one result.
pub trait Processor<T> {
    /// Whether `result` is a result that this stage may give for `input`.
    /// A stage whose result depends on its input alone admits one result
    /// for each input; a stage that says nothing of itself admits them all.
    open spec fn admits(&self, input: T, result: ProcessorResult<T>) -> bool {
        true
    }

    /// Processes one message.
    fn process(&self, r: T) -> (res: ProcessorResult<T>)
        ensures
            self.admits(r, res),
    ;
}

/// A stage for requests on their way out.
pub trait OutboundProcessor: Processor<Request> {}

/// A stage for responses on their way in.
pub trait InboundProcessor: Processor<Response> {}

} // verus!
