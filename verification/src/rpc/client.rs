//! The client side: the ledger of tickets and registered contexts, and what a
//! client does with a submission and with its end.
//!
//! The client bounds the number of requests in flight. A request takes a
//! ticket when it is submitted; once it is on the wire its aio context is
//! registered; when its callback is done the context is let go and the ticket
//! given back. So at any instant the tickets that are left and the requests in
//! flight add up to the capacity.

use vstd::prelude::*;
use crate::errors::{
    AioContextAtMaxCapacity,
    AioContextError,
    AioCreateError,
    AioReceiveError,
    AioSendError,
    Error,
    ErrorMessage,
};
use crate::rpc::reply::ReplyHandler;
use crate::rpc::registry::{ContextId, ContextRegistry};
use crate::rpc::server::SocketSettings;
use crate::rpc::tickets::{TicketQueue, MAX_TICKETS};

verus! {

/// The ledger of a client, as numbers: how many requests it admits, how many
/// tickets are left, how many requests hold a ticket and are not on the wire
/// yet, and which contexts are registered.
pub struct Ledger {
    /// Number of concurrent requests that the client admits.
    pub capacity: nat,
    /// Number of tickets that are left.
    pub available: nat,
    /// Number of requests that hold a ticket and are not registered yet.
    pub pending: nat,
    /// The contexts that are registered, by the numbers of their identifiers.
    pub registered: Set<u128>,
}

/// What happens to a ledger.
pub enum LedgerEvent {
    /// A ticket is reserved for a request that is about to be submitted.
    Reserve,
    /// A request could not be put on the wire.
    Rejected,
    /// A request is on the wire, and its context is to be registered under
    /// this identifier.
    Sent(ContextId),
    /// The callback of the request with this identifier is done.
    Close(ContextId),
}

impl Ledger {
    /// The ledger of a new client: every ticket is there.
    pub open spec fn full(capacity: nat) -> Ledger {
        Ledger { capacity, available: capacity, pending: 0, registered: Set::empty() }
    }

    /// Tickets and requests add up to the capacity.
    pub open spec fn conserved(self) -> bool {
        &&& self.registered.finite()
        &&& self.available + self.pending + self.registered.len() == self.capacity
    }

    /// Number of requests in flight.
    pub open spec fn in_flight(self) -> nat {
        self.pending + self.registered.len()
    }

    /// Whether a submission has to be refused: no ticket is reserved and
    /// none is left.
    pub open spec fn at_max_capacity(self) -> bool {
        self.pending == 0 && self.available == 0
    }

    /// The ledger after a ticket has been reserved. Without a ticket left it
    /// stays as it is.
    pub open spec fn reserve(self) -> Ledger {
        if self.available == 0 {
            self
        } else {
            Ledger {
                available: (self.available - 1) as nat,
                pending: self.pending + 1,
                ..self
            }
        }
    }

    /// The ledger after a request could not be put on the wire: its ticket,
    /// whether it was reserved before or would have been taken now, is back
    /// in the queue.
    pub open spec fn reject(self) -> Ledger {
        if self.pending == 0 {
            self
        } else {
            Ledger { available: self.available + 1, pending: (self.pending - 1) as nat, ..self }
        }
    }

    /// The ledger after a request has been put on the wire and its context
    /// registered. The request uses the ticket that was reserved for it, or
    /// takes one now; without either the ledger stays as it is.
    pub open spec fn register(self, id: ContextId) -> Ledger {
        if self.at_max_capacity() || self.registered.contains(id.key()) {
            self
        } else if self.pending == 0 {
            Ledger {
                available: (self.available - 1) as nat,
                registered: self.registered.insert(id.key()),
                ..self
            }
        } else {
            Ledger {
                pending: (self.pending - 1) as nat,
                registered: self.registered.insert(id.key()),
                ..self
            }
        }
    }

    /// The ledger after the callback of a request is done: its context is let
    /// go and its ticket given back. For an identifier that is not registered
    /// nothing changes.
    pub open spec fn close(self, id: ContextId) -> Ledger {
        if self.registered.contains(id.key()) {
            Ledger {
                available: self.available + 1,
                registered: self.registered.remove(id.key()),
                ..self
            }
        } else {
            self
        }
    }

    /// The ledger after one event.
    pub open spec fn step(self, event: LedgerEvent) -> Ledger {
        match event {
            LedgerEvent::Reserve => self.reserve(),
            LedgerEvent::Rejected => self.reject(),
            LedgerEvent::Sent(id) => self.register(id),
            LedgerEvent::Close(id) => self.close(id),
        }
    }

    /// The ledger after the events `events`, in order.
    pub open spec fn run(self, events: Seq<LedgerEvent>) -> Ledger
        decreases events.len(),
    {
        if events.len() == 0 {
            self
        } else {
            self.run(events.drop_last()).step(events.last())
        }
    }
}

/// No event leaks a ticket or gives back more than was taken: a ledger that
/// is conserved stays conserved, with the capacity it had.
pub proof fn lemma_step_conserves(ledger: Ledger, event: LedgerEvent)
    requires
        ledger.conserved(),
    ensures
        ledger.step(event).conserved(),
        ledger.step(event).capacity == ledger.capacity,
{
}

/// Whatever the order of reservations, submissions and closes, the tickets
/// that are left and the requests in flight add up to the capacity.
pub proof fn lemma_run_conserves(ledger: Ledger, events: Seq<LedgerEvent>)
    requires
        ledger.conserved(),
    ensures
        ledger.run(events).conserved(),
        ledger.run(events).capacity == ledger.capacity,
    decreases events.len(),
{
    if events.len() > 0 {
        lemma_run_conserves(ledger, events.drop_last());
        lemma_step_conserves(ledger.run(events.drop_last()), events.last());
    }
}

/// Ticket conservation: start with a full ledger of capacity `capacity` and
/// let any events happen in any order. Once no request holds a ticket without
/// being registered and every registered request has been closed, every
/// ticket is back and no context is registered.
pub proof fn lemma_all_tickets_return(capacity: nat, events: Seq<LedgerEvent>)
    requires
        Ledger::full(capacity).run(events).pending == 0,
        Ledger::full(capacity).run(events).registered == Set::<u128>::empty(),
    ensures
        Ledger::full(capacity).run(events).available == capacity,
        Ledger::full(capacity).run(events).registered.len() == 0,
{
    lemma_run_conserves(Ledger::full(capacity), events);
}

/// Capacity bound: with as many requests in flight as the client admits, no
/// ticket is left, and a submission is refused and changes nothing.
pub proof fn lemma_full_ledger_refuses(ledger: Ledger, id: ContextId)
    requires
        ledger.conserved(),
        ledger.pending == 0,
        ledger.registered.len() == ledger.capacity,
    ensures
        ledger.at_max_capacity(),
        ledger.reserve() == ledger,
        ledger.register(id) == ledger,
{
}

/// What the transport reported while a request was being put on the wire.
pub enum Submission<C> {
    /// No socket context could be created.
    ContextFailed(String),
    /// No aio handle could be created.
    AioFailed(String),
    /// The transport refused to send the request.
    SendFailed(String),
    /// The request is on the wire. The context is kept under the identifier
    /// until the request is closed.
    Sent(ContextId, C),
}

impl<C> Submission<C> {
    /// Whether the request is on the wire.
    pub open spec fn is_sent(&self) -> bool {
        self is Sent
    }

    /// The event that the submission is to the ledger.
    pub open spec fn event(&self) -> LedgerEvent {
        match self {
            Submission::Sent(id, _) => LedgerEvent::Sent(*id),
            _ => LedgerEvent::Rejected,
        }
    }

    /// Whether `error` is the error that this submission comes to: the kind
    /// that goes with what failed, with the text that the transport gave. A
    /// request on the wire comes to no error.
    pub open spec fn fails_with(&self, error: Error) -> bool {
        match (self, error) {
            (Submission::ContextFailed(text), Error::AioContextError(e)) => e.0.0@ == text@,
            (Submission::AioFailed(text), Error::AioCreateError(e)) => e.0.0@ == text@,
            (Submission::SendFailed(text), Error::AioSendError(e)) => e.0.0@ == text@,
            _ => false,
        }
    }
}

/// The core of the asynchronous client: its address, its tickets and the
/// contexts of its requests in flight. `C` is what keeps an aio context alive.
pub struct AsyncClient<C> {
    url: String,
    tickets: TicketQueue,
    pending: usize,
    registry: ContextRegistry<C>,
}

impl<C> AsyncClient<C> {
    /// The ledger of the client.
    pub closed spec fn ledger(&self) -> Ledger {
        Ledger {
            capacity: self.tickets.capacity(),
            available: self.tickets.available(),
            pending: self.pending as nat,
            registered: self.registry.keys(),
        }
    }

    /// The address that the client dials.
    pub closed spec fn url(&self) -> Seq<char> {
        self.url@
    }

    /// The context that is registered under `id`.
    pub closed spec fn context(&self, id: ContextId) -> C {
        self.registry.context(id.key())
    }

    /// The ledger is conserved, and the capacity is one that a client can
    /// have.
    pub closed spec fn wf(&self) -> bool {
        &&& self.tickets.wf()
        &&& self.ledger().conserved()
    }

    /// What `wf` says of the ledger.
    pub proof fn lemma_wf(&self)
        requires
            self.wf(),
        ensures
            self.ledger().conserved(),
            1 <= self.ledger().capacity <= MAX_TICKETS,
    {
    }

    /// Whether `error` is the error that a submission is refused with when
    /// no ticket is left: it names the address and the capacity of the client.
    pub open spec fn refuses_with(&self, error: Error) -> bool {
        error matches Error::AioContextAtMaxCapacity(e) && e.url() == self.url() && e.capacity()
            == self.ledger().capacity
    }

    /// A client that dials `url` and admits `capacity` concurrent requests.
    /// Every ticket is there and no context is registered.
    pub fn new(url: &str, capacity: usize) -> (client: Self)
        requires
            1 <= capacity <= MAX_TICKETS,
        ensures
            client.wf(),
            client.url() == url@,
            client.ledger() == Ledger::full(capacity as nat),
    {
        let tickets = TicketQueue::new(capacity);
        let registry = ContextRegistry::new(capacity);
        AsyncClient { url: String::from_str(url), tickets, pending: 0, registry }
    }

    /// Reserves a ticket for a request that is about to be submitted, before
    /// anything is allocated for it. Fails with `AioContextAtMaxCapacity`, and
    /// changes nothing, when and only when no ticket is left.
    pub fn reserve(&mut self) -> (result: Result<(), Error>)
        requires
            old(self).wf(),
        ensures
            final(self).wf(),
            final(self).url() == old(self).url(),
            final(self).ledger() == old(self).ledger().reserve(),
            result is Err <==> old(self).ledger().available == 0,
            result matches Err(e) ==> old(self).refuses_with(e),
            forall|id: ContextId|
                old(self).ledger().registered.contains(id.key()) ==> final(self).context(id)
                    == old(self).context(id),
    {
        if self.tickets.acquire() {
            self.pending = self.pending + 1;
            Ok(())
        } else {
            Err(
                Error::AioContextAtMaxCapacity(
                    AioContextAtMaxCapacity::new(self.url.as_str(), self.tickets.max_tickets()),
                ),
            )
        }
    }

    /// Concludes the submission of a request with what the transport
    /// reported.
    ///
    /// The request uses the ticket that was reserved for it, or takes one
    /// now. If there is neither, the call fails with
    /// `AioContextAtMaxCapacity` and changes nothing. A request that did not
    /// get on the wire fails with the error of its cause, and its ticket goes
    /// back. A request on the wire has its context registered.
    pub fn send_with_callback(&mut self, submission: Submission<C>) -> (result: Result<
        (),
        Error,
    >)
        requires
            old(self).wf(),
            submission matches Submission::Sent(id, _) ==> !old(self).ledger().registered.contains(
                id.key(),
            ),
        ensures
            final(self).wf(),
            final(self).url() == old(self).url(),
            final(self).ledger() == if old(self).ledger().at_max_capacity() {
                old(self).ledger()
            } else {
                old(self).ledger().step(submission.event())
            },
            result is Ok <==> !old(self).ledger().at_max_capacity() && submission.is_sent(),
            result matches Err(e) ==> if old(self).ledger().at_max_capacity() {
                old(self).refuses_with(e)
            } else {
                submission.fails_with(e)
            },
            match submission {
                Submission::Sent(id, context) => result is Ok ==> final(self).context(id)
                    == context,
                _ => true,
            },
            forall|id: ContextId|
                old(self).ledger().registered.contains(id.key()) ==> final(self).context(id)
                    == old(self).context(id),
    {
        let reserved = self.pending > 0;
        if !reserved {
            if !self.tickets.acquire() {
                return Err(
                    Error::AioContextAtMaxCapacity(
                        AioContextAtMaxCapacity::new(self.url.as_str(), self.tickets.max_tickets()),
                    ),
                );
            }
        } else {
            self.pending = self.pending - 1;
        }
        match submission {
            Submission::Sent(id, context) => {
                proof {
                    lemma_key_of_other(id);
                }
                let _ = self.registry.insert(id, context);
                Ok(())
            },
            Submission::ContextFailed(text) => {
                let _ = self.tickets.release();
                Err(Error::AioContextError(AioContextError(ErrorMessage(text))))
            },
            Submission::AioFailed(text) => {
                let _ = self.tickets.release();
                Err(Error::AioCreateError(AioCreateError(ErrorMessage(text))))
            },
            Submission::SendFailed(text) => {
                let _ = self.tickets.release();
                Err(Error::AioSendError(AioSendError(ErrorMessage(text))))
            },
        }
    }

    /// Closes the request with the identifier `id`, once its callback is
    /// done: its context is let go and handed back, and its ticket returns to
    /// the queue. For an identifier that is not registered nothing changes.
    pub fn close(&mut self, id: ContextId) -> (context: Option<C>)
        requires
            old(self).wf(),
        ensures
            final(self).wf(),
            final(self).url() == old(self).url(),
            final(self).ledger() == old(self).ledger().close(id),
            context is Some <==> old(self).ledger().registered.contains(id.key()),
            context matches Some(c) ==> c == old(self).context(id),
            forall|other: ContextId|
                other != id && old(self).ledger().registered.contains(other.key())
                    ==> final(self).context(other) == old(self).context(other),
    {
        proof {
            lemma_key_of_other(id);
        }
        let context = self.registry.remove(id);
        if context.is_some() {
            let _ = self.tickets.release();
        } else {
            assert(self.registry.keys() =~= old(self).registry.keys());
        }
        context
    }

    /// Whether a context is registered under `id`.
    pub fn is_registered(&self, id: ContextId) -> (registered: bool)
        ensures
            registered == self.ledger().registered.contains(id.key()),
    {
        self.registry.is_registered(id)
    }

    /// The address that the client dials.
    pub fn dialed_url(&self) -> (url: &str)
        ensures
            url@ == self.url(),
    {
        self.url.as_str()
    }

    /// Number of aio contexts that are registered.
    pub fn context_count(&self) -> (n: usize)
        ensures
            n == self.ledger().registered.len(),
    {
        self.registry.len()
    }

    /// Number of concurrent requests that the client admits. It is never 0.
    pub fn max_capacity(&self) -> (n: usize)
        requires
            self.wf(),
        ensures
            n == self.ledger().capacity,
            n >= 1,
    {
        self.tickets.max_tickets()
    }

    /// Number of requests that can be submitted now.
    pub fn available_capacity(&self) -> (n: usize)
        ensures
            n == self.ledger().available,
    {
        self.tickets.available_tickets()
    }

    /// Number of requests in flight: the capacity less what is available.
    pub fn used_capacity(&self) -> (n: usize)
        requires
            self.wf(),
        ensures
            n == self.ledger().capacity - self.ledger().available,
            n == self.ledger().in_flight(),
    {
        self.max_capacity() - self.available_capacity()
    }
}

/// Identifiers other than `id` have other numbers.
proof fn lemma_key_of_other(id: ContextId)
    ensures
        forall|other: ContextId| other != id ==> #[trigger] other.key() != id.key(),
{
    assert forall|other: ContextId| other != id implies #[trigger] other.key() != id.key() by {
        crate::rpc::registry::lemma_key_is_injective(other, id);
    }
}

/// What the aio context of a request is doing.
#[derive(Debug, Copy, Clone, PartialEq, Eq, Structural)]
pub enum AioState {
    /// A receive operation is in progress: the request is sent and the reply
    /// awaited.
    Recv,
    /// A send operation is in progress.
    Send,
    /// Nothing is in progress.
    Idle,
}

/// What the callback of a request is to do after an event.
#[derive(Debug, Copy, Clone, PartialEq, Eq, Structural)]
pub enum AioAction {
    /// The request is sent: post a receive on the context.
    Receive,
    /// The receive has ended well: hand the reply to the reply handler, then
    /// close.
    DeliverReply,
    /// The operation failed: hand the error to the reply handler, then close.
    DeliverError,
    /// Nothing: the event came while nothing was in progress, or after the
    /// request was closed.
    Ignore,
}

impl AioAction {
    /// Whether the action hands something to the reply handler.
    pub open spec fn delivers(self) -> bool {
        self == AioAction::DeliverReply || self == AioAction::DeliverError
    }
}

/// The state of one request: what its context is doing, and whether the
/// request has been closed. A closed request takes no further event.
#[derive(Debug, Copy, Clone, PartialEq, Eq, Structural)]
pub struct Request {
    /// What the context is doing.
    pub state: AioState,
    /// Whether the reply handler has been called and the request closed.
    pub closed: bool,
}

/// What the transport reports when an aio operation of a request has ended.
pub enum RequestEvent<M> {
    /// The operation succeeded. After a receive it carries the reply, if the
    /// transport has one.
    Done(Option<M>),
    /// The operation failed, and this is what the transport said.
    Failed(String),
}

impl<M> RequestEvent<M> {
    /// Whether the operation succeeded.
    pub open spec fn ok(&self) -> bool {
        self is Done
    }

    /// Whether `result` is what the reply handler is to be told of this
    /// event: the reply where there is one, and else `AioReceiveError`, with
    /// what the transport said where it said something.
    pub open spec fn comes_to(&self, result: Result<M, Error>) -> bool {
        match (self, result) {
            (RequestEvent::Done(Some(reply)), Ok(r)) => r == reply,
            (RequestEvent::Done(None), Err(Error::AioReceiveError(e))) => e.0.0@
                == "no message was received"@,
            (RequestEvent::Failed(text), Err(Error::AioReceiveError(e))) => e.0.0@ == text@,
            _ => false,
        }
    }
}

impl Request {
    /// A request that has been handed to the transport for sending.
    pub open spec fn sent() -> Request {
        Request { state: AioState::Send, closed: false }
    }

    /// The request after the operation in progress has ended, with success if
    /// `ok`.
    pub open spec fn next(self, ok: bool) -> Request {
        if self.closed {
            self
        } else if !ok {
            Request { state: AioState::Idle, closed: true }
        } else {
            match self.state {
                AioState::Send => Request { state: AioState::Recv, closed: false },
                AioState::Recv => Request { state: AioState::Idle, closed: true },
                AioState::Idle => self,
            }
        }
    }

    /// What the callback does when the operation in progress has ended, with
    /// success if `ok`.
    pub open spec fn action(self, ok: bool) -> AioAction {
        if self.closed {
            AioAction::Ignore
        } else if !ok {
            AioAction::DeliverError
        } else {
            match self.state {
                AioState::Send => AioAction::Receive,
                AioState::Recv => AioAction::DeliverReply,
                AioState::Idle => AioAction::Ignore,
            }
        }
    }

    /// The request after the events `events`, in order; `true` stands for an
    /// operation that succeeded.
    pub open spec fn run(self, events: Seq<bool>) -> Request
        decreases events.len(),
    {
        if events.len() == 0 {
            self
        } else {
            self.run(events.drop_last()).next(events.last())
        }
    }

    /// How often the reply handler is called in the course of `events`.
    pub open spec fn deliveries(self, events: Seq<bool>) -> nat
        decreases events.len(),
    {
        if events.len() == 0 {
            0
        } else {
            let before = self.deliveries(events.drop_last());
            if self.run(events.drop_last()).action(events.last()).delivers() {
                before + 1
            } else {
                before
            }
        }
    }

    /// A request that has just been created: nothing is in progress.
    pub fn new() -> (request: Self)
        ensures
            request == (Request { state: AioState::Idle, closed: false }),
    {
        Request { state: AioState::Idle, closed: false }
    }

    /// The request is handed to the transport for sending. A closed request
    /// stays as it is.
    pub fn sending(&mut self)
        ensures
            *final(self) == if old(self).closed {
                *old(self)
            } else {
                Request::sent()
            },
    {
        if !self.closed {
            self.state = AioState::Send;
        }
    }

    /// Takes the end of the operation in progress, a success if `ok`: moves
    /// to the next state and says what the callback is to do.
    pub fn handle_aio_event(&mut self, ok: bool) -> (action: AioAction)
        ensures
            *final(self) == old(self).next(ok),
            action == old(self).action(ok),
    {
        if self.closed {
            AioAction::Ignore
        } else if !ok {
            self.state = AioState::Idle;
            self.closed = true;
            AioAction::DeliverError
        } else {
            match self.state {
                AioState::Send => {
                    self.state = AioState::Recv;
                    AioAction::Receive
                },
                AioState::Recv => {
                    self.state = AioState::Idle;
                    self.closed = true;
                    AioAction::DeliverReply
                },
                AioState::Idle => AioAction::Ignore,
            }
        }
    }
}

impl Request {
    /// Takes the end of the operation in progress, as `handle_aio_event`
    /// does, and calls the reply handler where that is the thing to do: with
    /// the reply once it is there, with `AioReceiveError` once an operation
    /// has failed, and not at all otherwise. After a call of the handler the
    /// request is closed, so the handler is never called again.
    pub fn dispatch<M, H: ReplyHandler<M>>(
        &mut self,
        event: RequestEvent<M>,
        handler: &mut H,
    ) -> (action: AioAction)
        ensures
            *final(self) == old(self).next(event.ok()),
            action == old(self).action(event.ok()),
            action.delivers() ==> final(self).closed && exists|result: Result<M, Error>|
                event.comes_to(result) && old(handler).takes(result, *final(handler)),
            !action.delivers() ==> *final(handler) == *old(handler),
    {
        let ghost told = event;
        let action = match &event {
            RequestEvent::Done(_) => self.handle_aio_event(true),
            RequestEvent::Failed(_) => self.handle_aio_event(false),
        };
        if let AioAction::DeliverReply | AioAction::DeliverError = action {
            let result = match event {
                RequestEvent::Done(Some(reply)) => Ok(reply),
                RequestEvent::Done(None) => Err(
                    Error::AioReceiveError(
                        AioReceiveError(ErrorMessage(String::from_str("no message was received"))),
                    ),
                ),
                RequestEvent::Failed(text) => Err(
                    Error::AioReceiveError(AioReceiveError(ErrorMessage(text))),
                ),
            };
            let ghost given = result;
            assert(told.comes_to(given));
            handler.on_reply(result);
            assert(old(handler).takes(given, *handler));
        }
        action
    }
}

/// The reply handler of a request is called when the request is closed, and
/// at no other time: as long as the request is open it has not been called,
/// and once the request is closed it has been called exactly once.
pub proof fn lemma_delivered_once_closed(request: Request, events: Seq<bool>)
    requires
        !request.closed,
    ensures
        request.deliveries(events) == if request.run(events).closed {
            1nat
        } else {
            0nat
        },
    decreases events.len(),
{
    if events.len() > 0 {
        lemma_delivered_once_closed(request, events.drop_last());
    }
}

/// At most once: whatever the events of a request, its reply handler is
/// never called a second time.
pub proof fn lemma_delivered_at_most_once(request: Request, events: Seq<bool>)
    requires
        !request.closed,
    ensures
        request.deliveries(events) <= 1,
{
    lemma_delivered_once_closed(request, events);
}

/// Exactly once under errors: if any operation of a request fails, its reply
/// handler is called exactly once, whatever came before and whatever comes
/// after.
pub proof fn lemma_failure_delivers_exactly_once(request: Request, events: Seq<bool>, i: int)
    requires
        !request.closed,
        0 <= i < events.len(),
        !events[i],
    ensures
        request.run(events).closed,
        request.deliveries(events) == 1,
    decreases events.len(),
{
    lemma_delivered_once_closed(request, events);
    if i < events.len() - 1 {
        lemma_failure_delivers_exactly_once(request, events.drop_last(), i);
    }
}

/// A request whose send and receive both succeed has its reply delivered,
/// exactly once.
pub proof fn lemma_reply_is_delivered()
    ensures
        Request::sent().action(true) == AioAction::Receive,
        Request::sent().next(true).action(true) == AioAction::DeliverReply,
        Request::sent().deliveries(seq![true, true]) == 1,
{
    let request = Request::sent();
    let events = seq![true, true];
    assert(events.drop_last() =~= seq![true]);
    assert(events.drop_last().drop_last() =~= Seq::<bool>::empty());
    assert(request.run(Seq::<bool>::empty()) == request);
    assert(request.run(seq![true]) == request.next(true));
    assert(request.run(events).closed);
    lemma_delivered_once_closed(request, events);
}

/// Settings of a dialer.
#[derive(Debug, PartialEq, Eq)]
pub struct DialerSettings {
    url: String,
    recv_max_size: Option<usize>,
    no_delay: Option<bool>,
    keep_alive: Option<bool>,
    non_blocking: bool,
    max_concurrent_request_capacity: Option<usize>,
}

/// An option that is set on a dialer before it starts.
#[derive(Debug, Copy, Clone, PartialEq, Eq, Structural)]
pub enum DialerOption {
    /// The largest message that is accepted from a peer, in bytes.
    RecvMaxSize(usize),
    /// Whether TCP sends at once, without gathering data.
    NoDelay(bool),
    /// Whether TCP sends keep-alive messages.
    KeepAlive(bool),
}

impl DialerSettings {
    /// Settings for a dialer to `url`: it dials synchronously, admits one
    /// request at a time and leaves the other options at the transport's
    /// defaults.
    pub fn new(url: &str) -> (settings: Self)
        ensures
            settings.wf(),
            settings.url_text() == url@,
            settings.recv_max_size() is None,
            settings.no_delay() is None,
            settings.keep_alive() is None,
            !settings.non_blocking(),
            settings.max_concurrent_request_capacity() == 1,
    {
        DialerSettings {
            url: String::from_str(url),
            recv_max_size: None,
            no_delay: None,
            keep_alive: None,
            non_blocking: false,
            max_concurrent_request_capacity: None,
        }
    }

    /// The capacity is one that a client can have.
    pub open spec fn wf(&self) -> bool {
        1 <= self.max_concurrent_request_capacity() <= MAX_TICKETS
    }

    /// The address that the client dials.
    pub closed spec fn url_text(&self) -> Seq<char> {
        self.url@
    }

    /// The address that the client dials.
    pub fn url(&self) -> (url: &str)
        ensures
            url@ == self.url_text(),
    {
        self.url.as_str()
    }

    /// If true, the dialer connects asynchronously.
    #[verifier::when_used_as_spec(spec_non_blocking)]
    pub fn non_blocking(&self) -> (b: bool)
        ensures
            b == self.non_blocking(),
    {
        self.non_blocking
    }

    /// The largest message that is accepted from a peer, in bytes.
    #[verifier::when_used_as_spec(spec_recv_max_size)]
    pub fn recv_max_size(&self) -> (size: Option<usize>)
        ensures
            size == self.recv_max_size(),
    {
        self.recv_max_size
    }

    /// Whether TCP sends at once, without gathering data.
    #[verifier::when_used_as_spec(spec_no_delay)]
    pub fn no_delay(&self) -> (b: Option<bool>)
        ensures
            b == self.no_delay(),
    {
        self.no_delay
    }

    /// Whether TCP sends keep-alive messages.
    #[verifier::when_used_as_spec(spec_keep_alive)]
    pub fn keep_alive(&self) -> (b: Option<bool>)
        ensures
            b == self.keep_alive(),
    {
        self.keep_alive
    }

    /// Number of requests that the client admits at a time: 1 unless it was
    /// set.
    #[verifier::when_used_as_spec(spec_max_concurrent_request_capacity)]
    pub fn max_concurrent_request_capacity(&self) -> (n: usize)
        ensures
            n == self.max_concurrent_request_capacity(),
    {
        match self.max_concurrent_request_capacity {
            Some(n) => n,
            None => 1,
        }
    }

    pub closed spec fn spec_non_blocking(&self) -> bool {
        self.non_blocking
    }

    pub closed spec fn spec_recv_max_size(&self) -> Option<usize> {
        self.recv_max_size
    }

    pub closed spec fn spec_no_delay(&self) -> Option<bool> {
        self.no_delay
    }

    pub closed spec fn spec_keep_alive(&self) -> Option<bool> {
        self.keep_alive
    }

    pub closed spec fn spec_max_concurrent_request_capacity(&self) -> usize {
        match self.max_concurrent_request_capacity {
            Some(n) => n,
            None => 1,
        }
    }

    /// The two settings agree in everything but, possibly, the fields that
    /// the caller goes on to name.
    pub open spec fn same_but(
        &self,
        other: &Self,
        recv_max_size: bool,
        no_delay: bool,
        keep_alive: bool,
        non_blocking: bool,
        capacity: bool,
    ) -> bool {
        &&& self.url_text() == other.url_text()
        &&& recv_max_size || self.recv_max_size() == other.recv_max_size()
        &&& no_delay || self.no_delay() == other.no_delay()
        &&& keep_alive || self.keep_alive() == other.keep_alive()
        &&& non_blocking || self.non_blocking() == other.non_blocking()
        &&& capacity || self.max_concurrent_request_capacity()
            == other.max_concurrent_request_capacity()
    }

    /// Sets the largest message that is accepted from a peer.
    pub fn set_recv_max_size(self, recv_max_size: usize) -> (settings: Self)
        ensures
            settings.recv_max_size() == Some(recv_max_size),
            settings.same_but(&self, true, false, false, false, false),
    {
        let mut settings = self;
        settings.recv_max_size = Some(recv_max_size);
        settings
    }

    /// Sets whether TCP sends at once.
    pub fn set_no_delay(self, no_delay: bool) -> (settings: Self)
        ensures
            settings.no_delay() == Some(no_delay),
            settings.same_but(&self, false, true, false, false, false),
    {
        let mut settings = self;
        settings.no_delay = Some(no_delay);
        settings
    }

    /// Sets whether TCP sends keep-alive messages.
    pub fn set_keep_alive(self, keep_alive: bool) -> (settings: Self)
        ensures
            settings.keep_alive() == Some(keep_alive),
            settings.same_but(&self, false, false, true, false, false),
    {
        let mut settings = self;
        settings.keep_alive = Some(keep_alive);
        settings
    }

    /// Sets whether the dialer connects asynchronously.
    pub fn set_non_blocking(self, non_blocking: bool) -> (settings: Self)
        ensures
            settings.non_blocking() == non_blocking,
            settings.same_but(&self, false, false, false, true, false),
    {
        let mut settings = self;
        settings.non_blocking = non_blocking;
        settings
    }

    /// Sets the number of requests that the client admits at a time.
    pub fn set_max_concurrent_request_capacity(self, count: usize) -> (settings: Self)
        requires
            1 <= count <= MAX_TICKETS,
        ensures
            settings.wf(),
            settings.max_concurrent_request_capacity() == count,
            settings.same_but(&self, false, false, false, false, true),
    {
        let mut settings = self;
        settings.max_concurrent_request_capacity = Some(count);
        settings
    }

    /// The options that are set on the dialer before it starts, in the order
    /// in which they are set.
    pub open spec fn options(&self) -> Seq<DialerOption> {
        let size = match self.recv_max_size() {
            Some(size) => seq![DialerOption::RecvMaxSize(size)],
            None => seq![],
        };
        let delay = match self.no_delay() {
            Some(b) => seq![DialerOption::NoDelay(b)],
            None => seq![],
        };
        let alive = match self.keep_alive() {
            Some(b) => seq![DialerOption::KeepAlive(b)],
            None => seq![],
        };
        size + delay + alive
    }

    /// What has to be done to start the dialer: the options to set, in order,
    /// before the dialer is started on `url()`, blocking unless
    /// `non_blocking()`.
    pub fn start_dialer(&self) -> (options: Vec<DialerOption>)
        ensures
            options@ == self.options(),
    {
        let mut options: Vec<DialerOption> = Vec::new();
        if let Some(size) = self.recv_max_size {
            options.push(DialerOption::RecvMaxSize(size));
        }
        if let Some(b) = self.no_delay {
            options.push(DialerOption::NoDelay(b));
        }
        if let Some(b) = self.keep_alive {
            options.push(DialerOption::KeepAlive(b));
        }
        assert(options@ =~= self.options());
        options
    }
}

/// Builds a client from the settings of its dialer and, if given, of its
/// socket.
#[derive(Debug)]
pub struct Builder {
    dialer_settings: DialerSettings,
    socket_settings: Option<SocketSettings>,
}

impl Builder {
    /// A builder for a client with these dialer settings and a socket with
    /// the transport's defaults.
    pub fn new(dialer_settings: DialerSettings) -> (builder: Builder)
        ensures
            builder.dialer() == dialer_settings,
            builder.socket() is None,
    {
        Builder { dialer_settings, socket_settings: None }
    }

    /// The settings of the dialer.
    pub closed spec fn dialer(&self) -> DialerSettings {
        self.dialer_settings
    }

    /// The settings of the socket, if they were given.
    pub closed spec fn socket(&self) -> Option<SocketSettings> {
        self.socket_settings
    }

    /// Gives the socket these settings.
    pub fn socket_settings(self, socket_settings: SocketSettings) -> (builder: Builder)
        ensures
            builder.dialer() == self.dialer(),
            builder.socket() == Some(socket_settings),
    {
        let mut builder = self;
        builder.socket_settings = Some(socket_settings);
        builder
    }

    /// The settings of the dialer.
    pub fn dialer_settings(&self) -> (settings: &DialerSettings)
        ensures
            *settings == self.dialer(),
    {
        &self.dialer_settings
    }

    /// The settings of the socket, if they were given.
    pub fn get_socket_settings(&self) -> (settings: &Option<SocketSettings>)
        ensures
            *settings == self.socket(),
    {
        &self.socket_settings
    }

    /// Builds the core of the client: a ticket queue with as many tickets as
    /// the dialer admits concurrent requests, all of them there, and an empty
    /// registry of contexts. The caller creates the socket and starts the
    /// dialer.
    pub fn build<C>(self) -> (client: AsyncClient<C>)
        requires
            self.dialer().wf(),
        ensures
            client.wf(),
            client.url() == self.dialer().url_text(),
            client.ledger() == Ledger::full(
                self.dialer().max_concurrent_request_capacity() as nat,
            ),
    {
        let capacity = self.dialer_settings.max_concurrent_request_capacity();
        AsyncClient::new(self.dialer_settings.url(), capacity)
    }
}

} // verus!
