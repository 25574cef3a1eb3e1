//! A stage that reports the target of each message and lets it pass.

use vstd::prelude::*;
use crate::message::{Request, Response};
use crate::processor::{InboundProcessor, OutboundProcessor, Processor, ProcessorResult};

verus! {

/// Where a logger's observations go.
pub trait Sink {
    /// Takes one observation.
    fn emit(&self, line: &str);
}

/// Hands the target of every message to its sink, once for each message, and
/// continues with the message untouched.
pub struct Logger<S: Sink> {
    /// The sink that takes the observations.
    pub sink: S,
}

impl<S: Sink> Processor<Request> for Logger<S> {
    /// The one result for `input`: `Continue` with the request unchanged.
    open spec fn admits(&self, input: Request, result: ProcessorResult<Request>) -> bool {
        result == ProcessorResult::Continue(input)
    }

    fn process(&self, req: Request) -> (res: ProcessorResult<Request>) {
        self.sink.emit(req.uri.as_str());
        ProcessorResult::Continue(req)
    }
}

impl<S: Sink> Processor<Response> for Logger<S> {
    /// The one result for `input`: `Continue` with the response unchanged.
    open spec fn admits(&self, input: Response, result: ProcessorResult<Response>) -> bool {
        result == ProcessorResult::Continue(input)
    }

    fn process(&self, res: Response) -> (result: ProcessorResult<Response>) {
        self.sink.emit(res.uri.as_str());
        ProcessorResult::Continue(res)
    }
}

impl<S: Sink> OutboundProcessor for Logger<S> {}

impl<S: Sink> InboundProcessor for Logger<S> {}

} // verus!
