//! Delivery of replies: the callback surface of the client, and the handler
//! that relays a reply to a channel together with a handle that tells which
//! request it answers.

use vstd::prelude::*;
use core::time::Duration;
use crate::errors::Error;
use crate::text::push_text;

verus! {

/// Takes the reply to a request, or the error that the request ended with.
/// The client calls it at most once for each request.
pub trait ReplyHandler<M>: Sized {
    /// Whether the handler, as it is, may take `result` and be `after`
    /// afterwards. It is for the handler to say; one that says nothing
    /// promises nothing.
    open spec fn takes(&self, result: Result<M, Error>, after: Self) -> bool {
        true
    }

    /// The callback.
    fn on_reply(&mut self, result: Result<M, Error>)
        ensures
            old(self).takes(result, *final(self)),
    ;
}

/// What to do with a reply when the reply channel is full.
#[derive(Debug, Clone, Copy, PartialEq, Eq)]
pub enum ReplyChanFullAction {
    /// Drop the reply.
    DropMessage,
    /// Wait for room in the channel, but no longer than this; then drop the
    /// reply.
    Timeout(Duration),
}

/// How an attempt to send without waiting ended.
pub enum TrySend<X> {
    /// The message is in the channel.
    Sent,
    /// The channel is full. The message comes back.
    Full(X),
    /// The channel has no receiver left. The message comes back.
    Disconnected(X),
}

/// How an attempt to send within a time limit ended.
pub enum TimedSend<X> {
    /// The message is in the channel.
    Sent,
    /// The time ran out while the channel was full. The message comes back.
    Timeout(X),
    /// The channel has no receiver left. The message comes back.
    Disconnected(X),
}

/// Why a reply was dropped.
#[derive(Debug, Clone, Copy, PartialEq, Eq, Structural)]
pub enum DropReason {
    /// The channel was full, and replies are dropped when it is.
    Full,
    /// The channel was full and stayed full for the time allowed.
    TimedOut,
    /// The channel has no receiver left.
    Disconnected,
}

/// What became of a reply.
pub enum Delivery<X> {
    /// It is in the channel.
    Delivered,
    /// It was dropped, for this reason. The reply and its handle come back,
    /// so that the loss can be logged.
    Dropped(DropReason, X),
}

/// What follows the first attempt to send a reply.
pub enum NextStep<X> {
    /// The delivery has ended.
    Done(Delivery<X>),
    /// The message is to be sent again, waiting no longer than this.
    Retry(X, Duration),
}

impl DropReason {
    /// The line that is logged when a reply is dropped for this reason. It
    /// ends with the text of the handle.
    pub open spec fn log_text(self, handle: Seq<char>) -> Seq<char> {
        match self {
            DropReason::Disconnected => "reply channel is disconnected - dropping message for: "@
                + handle,
            _ => "reply channel is full - dropping message for: "@ + handle,
        }
    }

    /// The line that is logged when a reply is dropped for this reason.
    pub fn log_line(self, handle: &str) -> (line: String)
        ensures
            line@ == self.log_text(handle@),
    {
        let mut line = match self {
            DropReason::Disconnected => String::from_str(
                "reply channel is disconnected - dropping message for: ",
            ),
            _ => String::from_str("reply channel is full - dropping message for: "),
        };
        push_text(&mut line, handle);
        line
    }
}

impl ReplyChanFullAction {
    /// What follows the first attempt to send `message` without waiting.
    ///
    /// A message that was sent is delivered. A message that came back from a
    /// channel without receiver is dropped. A message that came back from a
    /// full channel is dropped under `DropMessage`, and sent again with the
    /// time limit under `Timeout`.
    pub fn after_try_send<X>(self, outcome: TrySend<X>) -> (step: NextStep<X>)
        ensures
            step == match outcome {
                TrySend::Sent => NextStep::<X>::Done(Delivery::Delivered),
                TrySend::Disconnected(message) => NextStep::Done(
                    Delivery::Dropped(DropReason::Disconnected, message),
                ),
                TrySend::Full(message) => match self {
                    ReplyChanFullAction::DropMessage => NextStep::Done(
                        Delivery::Dropped(DropReason::Full, message),
                    ),
                    ReplyChanFullAction::Timeout(limit) => NextStep::Retry(message, limit),
                },
            },
    {
        match outcome {
            TrySend::Sent => NextStep::Done(Delivery::Delivered),
            TrySend::Disconnected(message) => NextStep::Done(
                Delivery::Dropped(DropReason::Disconnected, message),
            ),
            TrySend::Full(message) => match self {
                ReplyChanFullAction::DropMessage => NextStep::Done(
                    Delivery::Dropped(DropReason::Full, message),
                ),
                ReplyChanFullAction::Timeout(limit) => NextStep::Retry(message, limit),
            },
        }
    }

    /// What became of a message that was sent again with a time limit.
    pub fn after_send_timeout<X>(outcome: TimedSend<X>) -> (delivery: Delivery<X>)
        ensures
            delivery == match outcome {
                TimedSend::Sent => Delivery::<X>::Delivered,
                TimedSend::Timeout(message) => Delivery::Dropped(DropReason::TimedOut, message),
                TimedSend::Disconnected(message) => Delivery::Dropped(
                    DropReason::Disconnected,
                    message,
                ),
            },
    {
        match outcome {
            TimedSend::Sent => Delivery::Delivered,
            TimedSend::Timeout(message) => Delivery::Dropped(DropReason::TimedOut, message),
            TimedSend::Disconnected(message) => Delivery::Dropped(
                DropReason::Disconnected,
                message,
            ),
        }
    }
}

/// `Sender::try_send`: sends without waiting. Where the channel is full or
/// has no receiver left, the error holds the message that was handed in.
/// Which of the three happens depends on the other end of the channel.
#[verifier::external_body]
pub(crate) fn try_send<X>(chan: &crossbeam::channel::Sender<X>, message: X) -> (outcome: TrySend<
    X,
>)
    ensures
        outcome matches TrySend::Full(m) ==> m == message,
        outcome matches TrySend::Disconnected(m) ==> m == message,
{
    match chan.try_send(message) {
        Ok(()) => TrySend::Sent,
        Err(crossbeam::channel::TrySendError::Full(m)) => TrySend::Full(m),
        Err(crossbeam::channel::TrySendError::Disconnected(m)) => TrySend::Disconnected(m),
    }
}

/// `Sender::send_timeout`: waits for room in the channel, but only for the
/// time given. Where the time runs out or the channel has no receiver left,
/// the error holds the message that was handed in.
#[verifier::external_body]
fn send_timeout<X>(chan: &crossbeam::channel::Sender<X>, message: X, limit: Duration) -> (outcome:
    TimedSend<X>)
    ensures
        outcome matches TimedSend::Timeout(m) ==> m == message,
        outcome matches TimedSend::Disconnected(m) ==> m == message,
{
    match chan.send_timeout(message, limit) {
        Ok(()) => TimedSend::Sent,
        Err(crossbeam::channel::SendTimeoutError::Timeout(m)) => TimedSend::Timeout(m),
        Err(crossbeam::channel::SendTimeoutError::Disconnected(m)) => TimedSend::Disconnected(m),
    }
}

/// Relays the reply to a channel, together with a handle that tells the
/// receiver which request the reply answers.
#[verifier::reject_recursive_types(M)]
#[verifier::reject_recursive_types(T)]
pub struct ReplyChannel<M, T> {
    chan: crossbeam::channel::Sender<(Result<M, Error>, T)>,
    handle: Option<T>,
    reply_chan_full_action: ReplyChanFullAction,
}

impl<M, T> ReplyChannel<M, T> {
    /// The handle, as long as no reply has been relayed.
    pub closed spec fn handle(&self) -> Option<T> {
        self.handle
    }

    /// What is done when the channel is full.
    pub closed spec fn full_action(&self) -> ReplyChanFullAction {
        self.reply_chan_full_action
    }

    /// A handler that relays one reply to `chan`, with `handle`.
    pub fn new(
        chan: crossbeam::channel::Sender<(Result<M, Error>, T)>,
        handle: T,
        reply_chan_full_action: ReplyChanFullAction,
    ) -> (handler: Self)
        ensures
            handler.handle() == Some(handle),
            handler.full_action() == reply_chan_full_action,
    {
        ReplyChannel { chan, handle: Some(handle), reply_chan_full_action }
    }

    /// Whether the handler has a reply to relay yet.
    pub fn is_pending(&self) -> (pending: bool)
        ensures
            pending == self.handle() is Some,
    {
        self.handle.is_some()
    }

    /// Relays `result` with the handle and tells what became of it.
    ///
    /// The message is sent without waiting. If the channel is full and the
    /// handler is to wait, it is sent again with the time limit. A message
    /// that was dropped comes back as it was handed in, and it was dropped
    /// for a time-out only if the handler is to wait, and for a full channel
    /// only if it is not. Whether the channel takes the message is for the
    /// other end to decide.
    pub fn deliver(&mut self, result: Result<M, Error>) -> (delivery: Delivery<
        (Result<M, Error>, T),
    >)
        requires
            old(self).handle() is Some,
        ensures
            final(self).handle() is None,
            final(self).full_action() == old(self).full_action(),
            delivery matches Delivery::Dropped(reason, message) ==> {
                &&& message.0 == result
                &&& Some(message.1) == old(self).handle()
                &&& reason == DropReason::TimedOut ==> old(self).full_action()
                    is Timeout
                &&& reason == DropReason::Full ==> old(self).full_action() is DropMessage
            },
    {
        let handle = self.handle.take().unwrap();
        let first = try_send(&self.chan, (result, handle));
        match self.reply_chan_full_action.after_try_send(first) {
            NextStep::Done(delivery) => delivery,
            NextStep::Retry(message, limit) => {
                let second = send_timeout(&self.chan, message, limit);
                ReplyChanFullAction::after_send_timeout(second)
            },
        }
    }
}

impl<M, T> ReplyHandler<M> for ReplyChannel<M, T> {
    /// Relays the reply to the channel, as `deliver` does. A second reply is
    /// not relayed: the handle is gone with the first.
    fn on_reply(&mut self, result: Result<M, Error>)
        ensures
            final(self).handle() is None,
            final(self).full_action() == old(self).full_action(),
    {
        if self.is_pending() {
            let _ = self.deliver(result);
        }
    }
}

} // verus!
