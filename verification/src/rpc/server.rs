//! The server side: listener settings and the receive/send state machine that
//! each worker of a server runs on its socket context.

use vstd::prelude::*;
use core::time::Duration;
use crate::errors::{Error, ErrorMessage, ListenerStartError};
use crate::rpc::{MessageProcessor, MessageProcessorFactory};

verus! {

/// What a socket context of the server is waiting for.
#[derive(Debug, Copy, Clone, PartialEq, Eq, Structural)]
pub enum AioState {
    /// A receive operation is in progress.
    Recv,
    /// A send operation is in progress.
    Send,
}

/// Settings of a socket.
#[derive(Debug, Clone, PartialEq, Eq)]
pub struct SocketSettings {
    reconnect_min_time: Option<Duration>,
    reconnect_max_time: Option<Duration>,
    max_ttl: Option<u8>,
}

impl SocketSettings {
    /// Settings that leave every option at the transport's default.
    pub fn new() -> (settings: Self)
        ensures
            settings.reconnect_min_time() is None,
            settings.reconnect_max_time() is None,
            settings.max_ttl() is None,
    {
        SocketSettings { reconnect_min_time: None, reconnect_max_time: None, max_ttl: None }
    }

    /// The shortest time to wait before a connection is tried again after a
    /// failed attempt.
    #[verifier::when_used_as_spec(spec_reconnect_min_time)]
    pub fn reconnect_min_time(&self) -> (t: Option<Duration>)
        ensures
            t == self.reconnect_min_time(),
    {
        self.reconnect_min_time
    }

    /// The longest time to wait before a connection is tried again after a
    /// failed attempt. The waiting time grows from the shortest to this one.
    #[verifier::when_used_as_spec(spec_reconnect_max_time)]
    pub fn reconnect_max_time(&self) -> (t: Option<Duration>)
        ensures
            t == self.reconnect_max_time(),
    {
        self.reconnect_max_time
    }

    /// The largest number of hops that a message may make.
    #[verifier::when_used_as_spec(spec_max_ttl)]
    pub fn max_ttl(&self) -> (ttl: Option<u8>)
        ensures
            ttl == self.max_ttl(),
    {
        self.max_ttl
    }

    pub closed spec fn spec_reconnect_min_time(&self) -> Option<Duration> {
        self.reconnect_min_time
    }

    pub closed spec fn spec_reconnect_max_time(&self) -> Option<Duration> {
        self.reconnect_max_time
    }

    pub closed spec fn spec_max_ttl(&self) -> Option<u8> {
        self.max_ttl
    }

    /// Sets the shortest time to wait before a connection is tried again.
    pub fn set_reconnect_min_time(self, time: Duration) -> (settings: Self)
        ensures
            settings.reconnect_min_time() == Some(time),
            settings.reconnect_max_time() == self.reconnect_max_time(),
            settings.max_ttl() == self.max_ttl(),
    {
        let mut settings = self;
        settings.reconnect_min_time = Some(time);
        settings
    }

    /// Sets the longest time to wait before a connection is tried again.
    pub fn set_reconnect_max_time(self, time: Duration) -> (settings: Self)
        ensures
            settings.reconnect_min_time() == self.reconnect_min_time(),
            settings.reconnect_max_time() == Some(time),
            settings.max_ttl() == self.max_ttl(),
    {
        let mut settings = self;
        settings.reconnect_max_time = Some(time);
        settings
    }

    /// Sets the largest number of hops that a message may make.
    pub fn set_max_ttl(self, ttl: u8) -> (settings: Self)
        ensures
            settings.reconnect_min_time() == self.reconnect_min_time(),
            settings.reconnect_max_time() == self.reconnect_max_time(),
            settings.max_ttl() == Some(ttl),
    {
        let mut settings = self;
        settings.max_ttl = Some(ttl);
        settings
    }
}

/// Settings of a listener.
#[derive(Debug, PartialEq, Eq)]
pub struct ListenerSettings {
    url: String,
    recv_max_size: Option<usize>,
    no_delay: Option<bool>,
    keep_alive: Option<bool>,
    non_blocking: bool,
    aio_context_count: usize,
}

impl Clone for ListenerSettings {
    fn clone(&self) -> (settings: Self)
        ensures
            settings == *self,
    {
        ListenerSettings {
            url: self.url.clone(),
            recv_max_size: self.recv_max_size,
            no_delay: self.no_delay,
            keep_alive: self.keep_alive,
            non_blocking: self.non_blocking,
            aio_context_count: self.aio_context_count,
        }
    }
}

/// An option that is set on a listener before it starts.
#[derive(Debug, Copy, Clone, PartialEq, Eq, Structural)]
pub enum ListenerOption {
    /// The largest message that is accepted from a peer, in bytes.
    RecvMaxSize(usize),
    /// Whether TCP sends at once, without gathering data.
    NoDelay(bool),
    /// Whether TCP sends keep-alive messages.
    KeepAlive(bool),
}

impl ListenerSettings {
    /// Settings for a listener on `url`: it binds synchronously, has one aio
    /// context and leaves the other options at the transport's defaults.
    pub fn new(url: &str) -> (settings: Self)
        ensures
            settings.wf(),
            settings.url_text() == url@,
            settings.recv_max_size() is None,
            settings.no_delay() is None,
            settings.keep_alive() is None,
            !settings.non_blocking(),
            settings.aio_context_count() == 1,
    {
        ListenerSettings {
            url: String::from_str(url),
            recv_max_size: None,
            no_delay: None,
            keep_alive: None,
            non_blocking: false,
            aio_context_count: 1,
        }
    }

    /// There is at least one aio context.
    pub open spec fn wf(&self) -> bool {
        self.aio_context_count() >= 1
    }

    /// The address that the server listens on.
    pub fn url(&self) -> (url: &str)
        ensures
            url@ == self.url_text(),
    {
        self.url.as_str()
    }

    /// If true, the listener binds to the address asynchronously.
    #[verifier::when_used_as_spec(spec_non_blocking)]
    pub fn non_blocking(&self) -> (b: bool)
        ensures
            b == self.non_blocking(),
    {
        self.non_blocking
    }

    /// Number of socket contexts, which is the number of requests that the
    /// server works on at a time.
    #[verifier::when_used_as_spec(spec_aio_context_count)]
    pub fn aio_context_count(&self) -> (n: usize)
        ensures
            n == self.aio_context_count(),
    {
        self.aio_context_count
    }

    /// The largest message that is accepted from a peer, in bytes. Zero means
    /// no limit.
    #[verifier::when_used_as_spec(spec_recv_max_size)]
    pub fn recv_max_size(&self) -> (size: Option<usize>)
        ensures
            size == self.recv_max_size(),
    {
        self.recv_max_size
    }

    /// Whether TCP sends at once, without gathering data.
    #[verifier::when_used_as_spec(spec_no_delay)]
    pub fn no_delay(&self) -> (b: Option<bool>)
        ensures
            b == self.no_delay(),
    {
        self.no_delay
    }

    /// Whether TCP sends keep-alive messages.
    #[verifier::when_used_as_spec(spec_keep_alive)]
    pub fn keep_alive(&self) -> (b: Option<bool>)
        ensures
            b == self.keep_alive(),
    {
        self.keep_alive
    }

    /// The address that the server listens on.
    pub closed spec fn url_text(&self) -> Seq<char> {
        self.url@
    }

    pub closed spec fn spec_non_blocking(&self) -> bool {
        self.non_blocking
    }

    pub closed spec fn spec_aio_context_count(&self) -> usize {
        self.aio_context_count
    }

    pub closed spec fn spec_recv_max_size(&self) -> Option<usize> {
        self.recv_max_size
    }

    pub closed spec fn spec_no_delay(&self) -> Option<bool> {
        self.no_delay
    }

    pub closed spec fn spec_keep_alive(&self) -> Option<bool> {
        self.keep_alive
    }

    /// The two settings agree in everything but, possibly, the fields that
    /// the caller goes on to name.
    pub open spec fn same_but(
        &self,
        other: &Self,
        recv_max_size: bool,
        no_delay: bool,
        keep_alive: bool,
        non_blocking: bool,
        aio_context_count: bool,
    ) -> bool {
        &&& self.url_text() == other.url_text()
        &&& recv_max_size || self.recv_max_size() == other.recv_max_size()
        &&& no_delay || self.no_delay() == other.no_delay()
        &&& keep_alive || self.keep_alive() == other.keep_alive()
        &&& non_blocking || self.non_blocking() == other.non_blocking()
        &&& aio_context_count || self.aio_context_count() == other.aio_context_count()
    }

    /// Sets the largest message that is accepted from a peer.
    pub fn set_recv_max_size(self, recv_max_size: usize) -> (settings: Self)
        ensures
            settings.recv_max_size() == Some(recv_max_size),
            settings.same_but(&self, true, false, false, false, false),
    {
        let mut settings = self;
        settings.recv_max_size = Some(recv_max_size);
        settings
    }

    /// Sets whether TCP sends at once.
    pub fn set_no_delay(self, no_delay: bool) -> (settings: Self)
        ensures
            settings.no_delay() == Some(no_delay),
            settings.same_but(&self, false, true, false, false, false),
    {
        let mut settings = self;
        settings.no_delay = Some(no_delay);
        settings
    }

    /// Sets whether TCP sends keep-alive messages.
    pub fn set_keep_alive(self, keep_alive: bool) -> (settings: Self)
        ensures
            settings.keep_alive() == Some(keep_alive),
            settings.same_but(&self, false, false, true, false, false),
    {
        let mut settings = self;
        settings.keep_alive = Some(keep_alive);
        settings
    }

    /// Sets whether the listener binds asynchronously.
    pub fn set_non_blocking(self, non_blocking: bool) -> (settings: Self)
        ensures
            settings.non_blocking() == non_blocking,
            settings.same_but(&self, false, false, false, true, false),
    {
        let mut settings = self;
        settings.non_blocking = non_blocking;
        settings
    }

    /// Sets the number of aio contexts.
    pub fn set_aio_count(self, count: usize) -> (settings: Self)
        requires
            count >= 1,
        ensures
            settings.wf(),
            settings.aio_context_count() == count,
            settings.same_but(&self, false, false, false, false, true),
    {
        let mut settings = self;
        settings.aio_context_count = count;
        settings
    }

    /// The error of a listener that did not start: it holds these settings
    /// and what the transport said.
    pub fn start_failed(&self, message: String) -> (error: Error)
        ensures
            error matches Error::ListenerStartError(e) && e.0 == *self && e.1.0 == message,
    {
        Error::ListenerStartError(ListenerStartError(self.clone(), ErrorMessage(message)))
    }

    /// The options that are set on the listener before it starts, in the
    /// order in which they are set.
    pub open spec fn options(&self) -> Seq<ListenerOption> {
        let size = match self.recv_max_size() {
            Some(size) => seq![ListenerOption::RecvMaxSize(size)],
            None => seq![],
        };
        let delay = match self.no_delay() {
            Some(b) => seq![ListenerOption::NoDelay(b)],
            None => seq![],
        };
        let alive = match self.keep_alive() {
            Some(b) => seq![ListenerOption::KeepAlive(b)],
            None => seq![],
        };
        size + delay + alive
    }

    /// What has to be done to start the listener: the options to set, in
    /// order, before the listener is started on `url()`, blocking unless
    /// `non_blocking()`.
    pub fn start_listener(&self) -> (options: Vec<ListenerOption>)
        ensures
            options@ == self.options(),
    {
        let mut options: Vec<ListenerOption> = Vec::new();
        if let Some(size) = self.recv_max_size {
            options.push(ListenerOption::RecvMaxSize(size));
        }
        if let Some(b) = self.no_delay {
            options.push(ListenerOption::NoDelay(b));
        }
        if let Some(b) = self.keep_alive {
            options.push(ListenerOption::KeepAlive(b));
        }
        assert(options@ =~= self.options());
        options
    }
}

/// What the transport reports when an aio operation of a context has ended.
pub enum AioEvent<M> {
    /// The operation succeeded. After a receive it carries the message, if
    /// the transport has one.
    Done(Option<M>),
    /// The operation failed because the transport is closed.
    Closed,
    /// The operation failed for another reason.
    Failed,
}

/// The kinds of event, without the message.
#[derive(Debug, Copy, Clone, PartialEq, Eq, Structural)]
pub enum EventKind {
    /// Success, with a message.
    Message,
    /// Success, without a message.
    Empty,
    /// Failure: the transport is closed.
    Closed,
    /// Failure of another kind.
    Failed,
}

impl<M> AioEvent<M> {
    /// The kind of the event.
    pub open spec fn kind(&self) -> EventKind {
        match self {
            AioEvent::Done(Some(_)) => EventKind::Message,
            AioEvent::Done(None) => EventKind::Empty,
            AioEvent::Closed => EventKind::Closed,
            AioEvent::Failed => EventKind::Failed,
        }
    }
}

/// What a worker asks of the transport after an event.
pub enum ServerAction<M> {
    /// Send this reply on the context.
    Send(M),
    /// Post a receive on the context.
    Receive,
    /// Post nothing: the receive failed, and the context stays as it is.
    Nothing,
}

/// The kinds of action, without the message.
#[derive(Debug, Copy, Clone, PartialEq, Eq, Structural)]
pub enum ActionKind {
    /// A reply is sent.
    Send,
    /// A receive is posted.
    Receive,
    /// Nothing is posted.
    Nothing,
}

impl<M> ServerAction<M> {
    /// The kind of the action.
    pub open spec fn kind(&self) -> ActionKind {
        match self {
            ServerAction::Send(_) => ActionKind::Send,
            ServerAction::Receive => ActionKind::Receive,
            ServerAction::Nothing => ActionKind::Nothing,
        }
    }
}

/// The state of a context after `event` has come in `state`.
///
/// A request that has been received puts the context into `Send`; everything
/// else leads back to `Recv`.
pub open spec fn next_state(state: AioState, event: EventKind) -> AioState {
    match (state, event) {
        (AioState::Recv, EventKind::Message) => AioState::Send,
        _ => AioState::Recv,
    }
}

/// What is asked of the transport when `event` has come in `state`.
///
/// While receiving: a request is processed and its reply sent; a success
/// without a message posts the receive again; after a failed receive nothing
/// is posted. While sending: a receive is posted, whether the send succeeded
/// or failed.
pub open spec fn next_action(state: AioState, event: EventKind) -> ActionKind {
    match (state, event) {
        (AioState::Recv, EventKind::Message) => ActionKind::Send,
        (AioState::Recv, EventKind::Empty) => ActionKind::Receive,
        (AioState::Recv, _) => ActionKind::Nothing,
        (AioState::Send, _) => ActionKind::Receive,
    }
}

/// A worker of the server: one socket context with its state and its
/// processor.
pub struct Worker<P> {
    state: AioState,
    processor: P,
}

impl<P> Worker<P> {
    /// A worker that waits for its first request.
    pub fn new(processor: P) -> (worker: Self)
        ensures
            worker.state() == AioState::Recv,
            worker.processor() == processor,
    {
        Worker { state: AioState::Recv, processor }
    }

    /// What the context of the worker is waiting for.
    #[verifier::when_used_as_spec(spec_state)]
    pub fn state(&self) -> (state: AioState)
        ensures
            state == self.state(),
    {
        self.state
    }

    pub closed spec fn spec_state(&self) -> AioState {
        self.state
    }

    /// The processor of the worker.
    pub closed spec fn processor(&self) -> P {
        self.processor
    }

    /// Takes an event of the context: moves to the next state and says what
    /// to ask of the transport. A request is handed to the processor, and the
    /// action carries the reply that the processor returned; on any other
    /// event the processor is left alone.
    pub fn handle_aio_event<M>(&mut self, event: AioEvent<M>) -> (action: ServerAction<M>) where
        P: MessageProcessor<M, M>,

        ensures
            final(self).state() == next_state(old(self).state(), event.kind()),
            action.kind() == next_action(old(self).state(), event.kind()),
            match (event, action) {
                (AioEvent::Done(Some(request)), ServerAction::Send(reply)) => old(
                    self,
                ).processor().answers(request, reply, final(self).processor()),
                _ => final(self).processor() == old(self).processor(),
            },
    {
        match self.state {
            AioState::Recv => match event {
                AioEvent::Done(Some(request)) => {
                    let reply = self.processor.process(request);
                    self.state = AioState::Send;
                    ServerAction::Send(reply)
                },
                AioEvent::Done(None) => ServerAction::Receive,
                AioEvent::Closed => ServerAction::Nothing,
                AioEvent::Failed => ServerAction::Nothing,
            },
            AioState::Send => {
                self.state = AioState::Recv;
                ServerAction::Receive
            },
        }
    }

    /// No reply is on its way after all: the transport has refused to send
    /// it, or the processor has failed to make one. The operation is
    /// cancelled, the context goes back to `Recv`, and a receive is posted.
    pub fn send_refused<M>(&mut self) -> (action: ServerAction<M>)
        ensures
            final(self).state() == AioState::Recv,
            final(self).processor() == old(self).processor(),
            action.kind() == ActionKind::Receive,
    {
        self.state = AioState::Recv;
        ServerAction::Receive
    }
}

/// A worker that has processed a request is back in `Recv`, with a receive
/// posted, as soon as the send of the reply has ended, however it ended.
pub proof fn lemma_worker_serves_next_request(sent: EventKind)
    ensures
        next_state(AioState::Recv, EventKind::Message) == AioState::Send,
        next_state(AioState::Send, sent) == AioState::Recv,
        next_action(AioState::Send, sent) == ActionKind::Receive,
{
}

/// A worker takes up a request only while it is in `Recv`: as long as the
/// reply to one request is on its way, no other request is processed, so the
/// requests of one context are served one after the other.
pub proof fn lemma_requests_are_serialized(state: AioState, event: EventKind)
    ensures
        next_action(state, event) == ActionKind::Send <==> state == AioState::Recv && event
            == EventKind::Message,
        next_action(state, event) == ActionKind::Send ==> next_state(state, event)
            == AioState::Send,
{
}

/// The state of a context after the events `events`, in order.
pub open spec fn state_after(state: AioState, events: Seq<EventKind>) -> AioState
    decreases events.len(),
{
    if events.len() == 0 {
        state
    } else {
        next_state(state_after(state, events.drop_last()), events.last())
    }
}

/// Whatever has happened on a context, it is in `Send` exactly when the last
/// event was a request that came while the context was receiving.
pub proof fn lemma_send_only_after_request(state: AioState, events: Seq<EventKind>)
    requires
        events.len() > 0,
    ensures
        state_after(state, events) == AioState::Send <==> state_after(state, events.drop_last())
            == AioState::Recv && events.last() == EventKind::Message,
{
}

/// The server: its workers, one for each aio context.
pub struct Server<P> {
    workers: Vec<Worker<P>>,
}

impl<P> Server<P> {
    /// Number of workers.
    pub closed spec fn worker_count(&self) -> nat {
        self.workers@.len()
    }

    /// State of the context of worker `i`.
    pub closed spec fn state(&self, i: int) -> AioState {
        self.workers@[i].state()
    }

    /// The processor of worker `i`.
    pub closed spec fn processor(&self, i: int) -> P {
        self.workers@[i].processor()
    }

    /// Sets up the workers of a server: as many as the settings have aio
    /// contexts, each with a processor of its own from the factory, each
    /// waiting for its first request. The caller posts a receive on each.
    pub fn start<F, M>(settings: &ListenerSettings, factory: &F) -> (server: Self) where
        F: MessageProcessorFactory<P, M, M>,
        P: MessageProcessor<M, M>,

        ensures
            server.worker_count() == settings.aio_context_count(),
            forall|i: int|
                0 <= i < server.worker_count() ==> server.state(i) == AioState::Recv
                    && factory.makes(server.processor(i)),
    {
        let count = settings.aio_context_count();
        let mut workers: Vec<Worker<P>> = Vec::new();
        let mut i: usize = 0;
        while i < count
            invariant
                i <= count,
                workers@.len() == i,
                forall|j: int|
                    0 <= j < i ==> (#[trigger] workers@[j]).state() == AioState::Recv
                        && factory.makes(workers@[j].processor()),
            decreases count - i,
        {
            workers.push(Worker::new(factory.new()));
            i = i + 1;
        }
        Server { workers }
    }

    /// Number of workers.
    pub fn aio_context_count(&self) -> (n: usize)
        ensures
            n == self.worker_count(),
    {
        self.workers.len()
    }

    /// Hands out the workers, for a caller that drives each of them on a
    /// thread of its own.
    pub fn into_workers(self) -> (workers: Vec<Worker<P>>)
        ensures
            workers@.len() == self.worker_count(),
            forall|i: int|
                0 <= i < workers@.len() ==> (#[trigger] workers@[i]).state() == self.state(i)
                    && workers@[i].processor() == self.processor(i),
    {
        self.workers
    }

    /// Takes an event of the context of worker `worker`. That worker moves as
    /// `Worker::handle_aio_event` says; the other workers stay as they are.
    pub fn handle_aio_event<M>(&mut self, worker: usize, event: AioEvent<M>) -> (action:
        ServerAction<M>) where P: MessageProcessor<M, M>
        requires
            worker < old(self).worker_count(),
        ensures
            final(self).worker_count() == old(self).worker_count(),
            final(self).state(worker as int) == next_state(
                old(self).state(worker as int),
                event.kind(),
            ),
            action.kind() == next_action(old(self).state(worker as int), event.kind()),
            match (event, action) {
                (AioEvent::Done(Some(request)), ServerAction::Send(reply)) => old(self).processor(
                    worker as int,
                ).answers(request, reply, final(self).processor(worker as int)),
                _ => final(self).processor(worker as int) == old(self).processor(worker as int),
            },
            forall|i: int|
                0 <= i < old(self).worker_count() && i != worker ==> final(self).state(i) == old(
                    self,
                ).state(i) && final(self).processor(i) == old(self).processor(i),
    {
        let w = &mut self.workers[worker];
        w.handle_aio_event(event)
    }
}

} // verus!
