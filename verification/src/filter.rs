//! A stage that lets through only the requests whose target holds a pattern.

use vstd::prelude::*;
use crate::message::Request;
use crate::processor::{OutboundProcessor, Processor, ProcessorResult};
use crate::text::{contains, is_substring};

verus! {

/// Breaks the chain for every request whose target does not hold
/// `filter_string`.
pub struct Filter {
    /// The pattern looked for in a request's target: a literal text, matched
    /// case-sensitively anywhere in the target.
    pub filter_string: String,
}

impl Processor<Request> for Filter {
    /// The one result for `input`: `Continue` where the target holds the
    /// pattern, `Break` where it does not, the request unchanged either way.
    open spec fn admits(&self, input: Request, result: ProcessorResult<Request>) -> bool {
        result == if is_substring(self.filter_string@, input.uri@) {
            ProcessorResult::Continue(input)
        } else {
            ProcessorResult::Break(input)
        }
    }

    fn process(&self, req: Request) -> (res: ProcessorResult<Request>) {
        if contains(req.uri.as_str(), self.filter_string.as_str()) {
            ProcessorResult::Continue(req)
        } else {
            ProcessorResult::Break(req)
        }
    }
}

impl OutboundProcessor for Filter {}

} // verus!
