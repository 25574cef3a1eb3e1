//! The pipeline: one chain for requests going out, one for responses coming in.

use vstd::prelude::*;
use std::sync::Arc;
use crate::chain::{chain_yields, run_chain, ChainOutcome};
use crate::message::{Request, Response};
use crate::processor::{InboundProcessor, OutboundProcessor};

verus! {

/// Two ordered chains of stages, fixed when the pipeline is made and shared
/// read-only by every run. `O` and `I` are the kinds of stage held; with a
/// trait object for each, one chain can mix stages of different types.
pub struct Pipeline<O: OutboundProcessor + ?Sized, I: InboundProcessor + ?Sized> {
    outbound_processors: Arc<Vec<Box<O>>>,
    inbound_processors: Arc<Vec<Box<I>>>,
}

impl<O: OutboundProcessor + ?Sized, I: InboundProcessor + ?Sized> Pipeline<O, I> {
    /// The stages applied to requests, in the order in which they run.
    pub closed spec fn outbound(&self) -> Seq<Box<O>> {
        self.outbound_processors@
    }

    /// The stages applied to responses, in the order in which they run.
    pub closed spec fn inbound(&self) -> Seq<Box<I>> {
        self.inbound_processors@
    }

    /// Makes a pipeline of the two chains, each kept in the order given.
    pub fn new(outbound_processors: Vec<Box<O>>, inbound_processors: Vec<Box<I>>) -> (pipeline:
        Self)
        ensures
            pipeline.outbound() == outbound_processors@,
            pipeline.inbound() == inbound_processors@,
    {
        Pipeline {
            outbound_processors: Arc::new(outbound_processors),
            inbound_processors: Arc::new(inbound_processors),
        }
    }

    /// Runs a request through the outbound chain. `Forward` carries the
    /// request to send to the origin; `ShortCircuit` carries the message to
    /// answer the client with, and nothing is to be sent to the origin.
    pub fn on_request(&self, request: Request) -> (outcome: ChainOutcome<Request>)
        ensures
            chain_yields(self.outbound(), request, outcome),
            self.outbound().len() == 0 ==> outcome == ChainOutcome::Forward(request),
    {
        run_chain(&*self.outbound_processors, request)
    }

    /// Runs a response through the inbound chain and gives the response to
    /// deliver to the client: what the chain's outcome carries, whether the
    /// chain ran to its end or a stage broke it.
    pub fn on_response(&self, response: Response) -> (delivered: Response)
        ensures
            exists|outcome: ChainOutcome<Response>|
                #[trigger] chain_yields(self.inbound(), response, outcome) && delivered
                    == outcome.message(),
            self.inbound().len() == 0 ==> delivered == response,
    {
        let outcome = run_chain(&*self.inbound_processors, response);
        outcome.into_message()
    }
}

impl<O: OutboundProcessor + ?Sized, I: InboundProcessor + ?Sized> Clone for Pipeline<O, I> {
    /// Another handle on the same two chains.
    fn clone(&self) -> (copy: Self)
        ensures
            copy.outbound() == self.outbound(),
            copy.inbound() == self.inbound(),
    {
        Pipeline {
            outbound_processors: self.outbound_processors.clone(),
            inbound_processors: self.inbound_processors.clone(),
        }
    }
}

} // verus!
