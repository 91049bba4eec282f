//! Request/reply engines: what a server worker and a client do with the
//! events that the message transport reports.

use vstd::prelude::*;

pub mod tickets;
pub mod registry;
pub mod client;
pub mod reply;
pub mod server;

verus! {

/// Maps one request message to one reply message.
///
/// A processor may keep state between invocations. Each server worker has a
/// processor of its own.
pub trait MessageProcessor<Req, Rep>: Sized {
    /// Whether the processor, as it is, may answer `req` with `rep` and be
    /// `after` afterwards. It is for the processor to say; one that says
    /// nothing promises nothing.
    open spec fn answers(&self, req: Req, rep: Rep, after: Self) -> bool {
        true
    }

    /// Computes the reply to `req`.
    fn process(&mut self, req: Req) -> (rep: Rep)
        ensures
            old(self).answers(req, rep, *final(self)),
    ;
}

/// Produces the processors of a server, one for each worker. A factory can
/// be cloned and shared between threads.
pub trait MessageProcessorFactory<P, Req, Rep>: Clone + Send + Sync where
    P: MessageProcessor<Req, Rep>,
 {
    /// Whether `processor` is one that the factory may make. It is for the
    /// factory to say; one that says nothing promises nothing.
    open spec fn makes(&self, processor: P) -> bool {
        true
    }

    /// Makes a new processor.
    fn new(&self) -> (processor: P)
        ensures
            self.makes(processor),
    ;
}

/// The processor that answers every request with the request itself, and the
/// factory of such processors.
#[derive(Debug, Clone, Copy, PartialEq, Eq, Structural)]
pub struct Echo;

impl<M> MessageProcessor<M, M> for Echo {
    /// The reply is the request, and the processor stays as it is.
    open spec fn answers(&self, req: M, rep: M, after: Self) -> bool {
        rep == req
    }

    fn process(&mut self, req: M) -> (rep: M) {
        req
    }
}

impl<M> MessageProcessorFactory<Echo, M, M> for Echo {
    fn new(&self) -> (processor: Echo) {
        Echo
    }
}

} // verus!
