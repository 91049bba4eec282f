//! The registry of aio contexts: it owns the contexts of the requests in
//! flight, so that they stay alive until their callbacks are done.

use vstd::prelude::*;
use std::collections::HashMap;
use crate::rpc::reply::try_send;

verus! {

broadcast use vstd::std_specs::hash::group_hash_axioms;

/// Identifies the aio context of one request: the instant at which the
/// request was submitted, on a clock that never goes back, and the number
/// that the transport gave to the context.
#[derive(Debug, Clone, Copy, PartialEq, Eq, Hash, PartialOrd, Ord, Structural)]
pub struct ContextId {
    /// Instant of submission, in nanoseconds of a monotonic clock.
    pub instant: u64,
    /// The transport's number of the context.
    pub context: i32,
}

impl ContextId {
    /// The identifier as one number: the instant in the upper bits, the
    /// context number, counted from the smallest `i32`, in the lower 32.
    pub open spec fn key(self) -> u128 {
        (self.instant * 0x1_0000_0000 + (self.context + 0x8000_0000)) as u128
    }

    /// The identifier of the context `context` of a request submitted at
    /// `instant`.
    pub fn new(instant: u64, context: i32) -> (id: Self)
        ensures
            id.instant == instant,
            id.context == context,
    {
        ContextId { instant, context }
    }

    /// The identifier as one number.
    pub fn to_key(&self) -> (key: u128)
        ensures
            key == self.key(),
    {
        let low: i64 = self.context as i64 + 0x8000_0000i64;
        let high: u128 = self.instant as u128;
        assert(high * 0x1_0000_0000 <= 0xffff_ffff_ffff_ffff * 0x1_0000_0000) by (nonlinear_arith)
            requires
                high <= 0xffff_ffff_ffff_ffff,
        ;
        high * 0x1_0000_0000u128 + (low as u128)
    }
}

/// Two identifiers with the same number are the same identifier.
pub proof fn lemma_key_is_injective(a: ContextId, b: ContextId)
    ensures
        a.key() == b.key() <==> a == b,
{
    let la = a.context + 0x8000_0000;
    let lb = b.context + 0x8000_0000;
    if a.key() == b.key() {
        assert(a.instant * 0x1_0000_0000 + la == b.instant * 0x1_0000_0000 + lb);
        assert(a.instant == b.instant) by (nonlinear_arith)
            requires
                a.instant * 0x1_0000_0000 + la == b.instant * 0x1_0000_0000 + lb,
                0 <= la < 0x1_0000_0000,
                0 <= lb < 0x1_0000_0000,
        ;
    }
}

/// A message to the registry.
pub enum AioContextMessage<C> {
    /// Keep this context under this identifier.
    Insert(ContextId, C),
    /// Let go of the context with this identifier.
    Remove(ContextId),
    /// Tell on this channel how many contexts are kept.
    Count(crossbeam::channel::Sender<usize>),
}

/// The contexts of the requests in flight, by identifier.
pub struct ContextRegistry<C> {
    contexts: HashMap<u128, C>,
}

impl<C> ContextRegistry<C> {
    /// The numbers of the identifiers that are registered.
    pub closed spec fn keys(&self) -> Set<u128> {
        self.contexts@.dom()
    }

    /// The context that is kept under the number `key`.
    pub closed spec fn context(&self, key: u128) -> C {
        self.contexts@[key]
    }

    /// Whether a context is registered under `id`.
    pub open spec fn contains(&self, id: ContextId) -> bool {
        self.keys().contains(id.key())
    }

    /// Number of contexts that are registered.
    pub open spec fn count(&self) -> nat {
        self.keys().len()
    }

    /// The registered identifiers are finitely many.
    pub proof fn lemma_finite(&self)
        ensures
            self.keys().finite(),
    {
    }

    /// An empty registry with room for `capacity` contexts.
    pub fn new(capacity: usize) -> (registry: Self)
        ensures
            registry.keys() == Set::<u128>::empty(),
    {
        let registry = ContextRegistry { contexts: HashMap::with_capacity(capacity) };
        assert(registry.contexts@.dom() =~= Set::<u128>::empty());
        registry
    }

    /// Keeps `context` under `id`. A context that was kept under `id` before
    /// is handed back.
    pub fn insert(&mut self, id: ContextId, context: C) -> (previous: Option<C>)
        ensures
            final(self).keys() == old(self).keys().insert(id.key()),
            final(self).context(id.key()) == context,
            forall|k: u128|
                k != id.key() && old(self).keys().contains(k)
                    ==> final(self).context(k) == old(self).context(k),
            previous is Some <==> old(self).contains(id),
            previous matches Some(c) ==> c == old(self).context(id.key()),
    {
        let key = id.to_key();
        let previous = self.contexts.insert(key, context);
        assert(self.contexts@.dom() =~= old(self).contexts@.dom().insert(key));
        previous
    }

    /// Lets go of the context that is kept under `id` and hands it back, if
    /// there is one.
    pub fn remove(&mut self, id: ContextId) -> (context: Option<C>)
        ensures
            final(self).keys() == old(self).keys().remove(id.key()),
            forall|k: u128|
                k != id.key() && old(self).keys().contains(k)
                    ==> final(self).context(k) == old(self).context(k),
            context is Some <==> old(self).contains(id),
            context matches Some(c) ==> c == old(self).context(id.key()),
    {
        let key = id.to_key();
        let context = self.contexts.remove(&key);
        assert(self.contexts@.dom() =~= old(self).contexts@.dom().remove(key));
        context
    }

    /// Whether a context is registered under `id`.
    pub fn is_registered(&self, id: ContextId) -> (registered: bool)
        ensures
            registered == self.contains(id),
    {
        let key = id.to_key();
        self.contexts.contains_key(&key)
    }

    /// Number of contexts that are registered.
    pub fn len(&self) -> (n: usize)
        ensures
            n == self.count(),
    {
        self.contexts.len()
    }

    /// Serves one message: `Insert` keeps the context, `Remove` lets go of
    /// it, `Count` answers on the channel of the message with the number of
    /// contexts and changes nothing.
    pub fn handle(&mut self, message: AioContextMessage<C>)
        ensures
            final(self).keys() == match message {
                AioContextMessage::Insert(id, _) => old(self).keys().insert(id.key()),
                AioContextMessage::Remove(id) => old(self).keys().remove(id.key()),
                AioContextMessage::Count(_) => old(self).keys(),
            },
            message matches AioContextMessage::Insert(id, context) ==> final(self).context(
                id.key(),
            ) == context,
    {
        match message {
            AioContextMessage::Insert(id, context) => {
                let _ = self.insert(id, context);
            },
            AioContextMessage::Remove(id) => {
                let _ = self.remove(id);
            },
            AioContextMessage::Count(reply) => {
                let _ = try_send(&reply, self.len());
            },
        }
    }
}

/// A context that is inserted and then removed leaves the registry with the
/// identifiers it had, provided the identifier was new.
pub proof fn lemma_insert_remove_restores(keys: Set<u128>, id: ContextId)
    requires
        !keys.contains(id.key()),
    ensures
        keys.insert(id.key()).remove(id.key()) == keys,
{
    assert(keys.insert(id.key()).remove(id.key()) =~= keys);
}

} // verus!
