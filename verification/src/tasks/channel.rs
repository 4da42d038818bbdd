//! The channel endpoints of one task-backend actor: its own bounded inbox and
//! the producer handles of its outgoing channels. The recorded capacity is
//! the bound a deployment would give the underlying queue; the deterministic
//! driver routes eagerly and does not model backpressure.

use vstd::prelude::*;

use crate::channel::{InChannel, Inbox, OutChannels, Outbox};
use crate::internal::{EqKey, SendError, Sender};

verus! {

/// The endpoints of one actor: its inbox and its outgoing handles.
pub struct Channels<K, M> {
    pub(crate) inbox: Inbox<K, M>,
    pub(crate) outgoing: Outbox<K, M>,
    buffer: usize,
}

impl<K: EqKey, M> Channels<K, M> {
    /// Every message ever put in the inbox, tagged by sender.
    pub closed spec fn inbox_history(&self) -> Seq<(K, M)> {
        self.inbox.history()
    }

    /// How many inbox messages have been delivered.
    pub closed spec fn inbox_taken(&self) -> int {
        self.inbox.taken()
    }

    /// The destinations declared for this actor.
    pub closed spec fn declared(&self) -> Set<K> {
        self.outgoing.declared()
    }

    /// The accepted messages not yet routed, oldest first.
    pub closed spec fn buffered(&self) -> Seq<(K, M)> {
        self.outgoing.buffered()
    }

    /// Bookkeeping invariant.
    pub closed spec fn wf(&self) -> bool {
        self.inbox.wf()
    }

    /// A well-formed inbox has delivered no more than was enqueued.
    pub proof fn lemma_wf(&self)
        requires
            self.wf(),
        ensures
            0 <= self.inbox_taken() <= self.inbox_history().len(),
    {
        self.inbox.lemma_wf();
    }

    /// Fresh endpoints with the given inbox capacity and no declared
    /// destinations.
    pub fn new(buffer: usize) -> (r: Self)
        ensures
            r.wf(),
            r.inbox_history() == Seq::<(K, M)>::empty(),
            r.inbox_taken() == 0,
            r.declared() == Set::<K>::empty(),
            r.declared_capacity() == buffer,
    {
        Channels { inbox: Inbox::new(), outgoing: Outbox::new(), buffer }
    }

    /// The capacity the inbox was declared with.
    pub closed spec fn declared_capacity(&self) -> usize {
        self.buffer
    }

    /// The capacity the inbox was declared with.
    pub fn capacity(&self) -> (r: usize)
        ensures
            r == self.declared_capacity(),
    {
        self.buffer
    }

    /// Install a producer handle for the channel to `key`. Returns the
    /// previous handle's presence.
    pub fn insert(&mut self, key: K) -> (had: bool)
        requires
            old(self).wf(),
        ensures
            final(self).wf(),
            had <==> old(self).declared().contains(key),
            final(self).declared() == old(self).declared().insert(key),
            final(self).inbox_history() == old(self).inbox_history(),
            final(self).inbox_taken() == old(self).inbox_taken(),
    {
        self.outgoing.insert(key)
    }

    /// Remove the producer handle for the channel to `key`, if one is
    /// installed.
    pub fn remove(&mut self, key: K) -> (had: bool)
        requires
            old(self).wf(),
        ensures
            final(self).wf(),
            had <==> old(self).declared().contains(key),
            final(self).declared() == old(self).declared().remove(key),
            final(self).inbox_history() == old(self).inbox_history(),
            final(self).inbox_taken() == old(self).inbox_taken(),
    {
        self.outgoing.remove(key)
    }

    /// Accept a message for the channel to `key`; it queues until the driver
    /// routes it. Fails, handing the payload back, when no handle for `key`
    /// is installed.
    pub fn send(&mut self, key: &K, message: M) -> (r: Result<(), SendError<(K, M)>>)
        requires
            old(self).wf(),
        ensures
            final(self).wf(),
            r is Ok <==> old(self).declared().contains(*key),
            r is Err ==> *final(self) == *old(self) && (r matches Err(SendError(p)) && p.0 == *key
                && p.1 == message),
            final(self).declared() == old(self).declared(),
            final(self).inbox_history() == old(self).inbox_history(),
            final(self).inbox_taken() == old(self).inbox_taken(),
    {
        let r = self.outgoing.send(key, message);
        proof {
            assert forall|x: K|
                self.outgoing.declared().contains(x) == old(self).outgoing.declared().contains(
                    x,
                ) by {
                assert(self.outgoing.can_send(x) == old(self).outgoing.can_send(x));
            }
            assert(self.outgoing.declared() =~= old(self).outgoing.declared());
        }
        r
    }

    /// Take the next pending inbox message, if any.
    pub fn recv(&mut self) -> (r: Option<M>)
        requires
            old(self).wf(),
        ensures
            final(self).wf(),
            final(self).inbox_history() == old(self).inbox_history(),
            final(self).declared() == old(self).declared(),
            old(self).inbox_taken() < old(self).inbox_history().len() ==> {
                &&& r == Some(old(self).inbox_history()[old(self).inbox_taken()].1)
                &&& final(self).inbox_taken() == old(self).inbox_taken() + 1
            },
            old(self).inbox_taken() == old(self).inbox_history().len() ==> r is None
                && final(self).inbox_taken() == old(self).inbox_taken(),
    {
        proof {
            self.inbox.lemma_wf();
        }
        self.inbox.recv()
    }

    /// Enqueue a message for this actor; the ghost tag names the sender.
    pub fn push(&mut self, from: Ghost<K>, message: M)
        requires
            old(self).wf(),
        ensures
            final(self).wf(),
            final(self).inbox_history() == old(self).inbox_history().push((from@, message)),
            final(self).inbox_taken() == old(self).inbox_taken(),
            final(self).declared() == old(self).declared(),
    {
        self.inbox.push(from, message);
    }

    /// Whether an inbox message is pending.
    pub fn has_pending(&self) -> (r: bool)
        requires
            self.wf(),
        ensures
            r <==> self.inbox_taken() < self.inbox_history().len(),
    {
        self.inbox.has_pending()
    }

    /// Whether a producer handle for `key` is installed.
    pub fn declares(&self, key: &K) -> (r: bool)
        ensures
            r <==> self.declared().contains(*key),
    {
        self.outgoing.declares(key)
    }

    /// Hand the accepted, unrouted messages to the driver, in send order.
    pub fn take_outgoing(&mut self) -> (r: Vec<(K, M)>)
        requires
            old(self).wf(),
        ensures
            final(self).wf(),
            r@ == old(self).buffered(),
            final(self).buffered() == Seq::<(K, M)>::empty(),
            final(self).inbox_history() == old(self).inbox_history(),
            final(self).inbox_taken() == old(self).inbox_taken(),
            final(self).declared() == old(self).declared(),
    {
        self.outgoing.take_outgoing()
    }
}

} // verus!
