//! The verified channel layer. An inbox is a FIFO queue with a ghost history
//! of every message ever enqueued, tagged by its sender; an outbox is the set
//! of a sender's declared destinations together with the messages it has
//! accepted and not yet routed. Delivery order is pinned to enqueue order,
//! which is what makes the per-channel FIFO guarantee provable.

use vstd::prelude::*;
use vstd::seq_lib::lemma_seq_skip_of_skip;

use crate::internal::{EqKey, SendError, Sender};

verus! {

/// An error describing a closed channel.
#[derive(PartialEq, Eq, Clone, Copy, Debug)]
pub struct RecvError;

/// An error returned from a timed wait.
#[derive(PartialEq, Eq, Clone, Copy, Debug)]
pub enum RecvTimeoutError {
    Timeout,
    Disconnected,
}

/// Any failure of a channel operation, with the payload of a failed send
/// handed back.
#[derive(Debug, Clone, Copy, PartialEq, Eq)]
pub enum ChannelError<T> {
    SendError(T),
    RecvTimeoutError(RecvTimeoutError),
    RecvError,
}

impl<T> From<SendError<T>> for ChannelError<T> {
    fn from(err: SendError<T>) -> (r: Self) {
        ChannelError::SendError(err.0)
    }
}

impl<T> vstd::std_specs::convert::FromSpecImpl<SendError<T>> for ChannelError<T> {
    open spec fn obeys_from_spec() -> bool {
        true
    }

    open spec fn from_spec(err: SendError<T>) -> Self {
        ChannelError::SendError(err.0)
    }
}

/// The messages of `history` that were enqueued by sender `k`, in order.
pub open spec fn from_sender<K, M>(history: Seq<(K, M)>, k: K) -> Seq<M> {
    history.filter(|p: (K, M)| p.0 == k).map_values(|p: (K, M)| p.1)
}

pub proof fn lemma_push_to_set<A>(s: Seq<A>, x: A)
    ensures
        s.push(x).to_set() == s.to_set().insert(x),
{
    assert forall|y: A| s.push(x).to_set().contains(y) implies s.to_set().insert(x).contains(
        y,
    ) by {
        let j = choose|j: int| 0 <= j < s.push(x).len() && s.push(x)[j] == y;
        if j < s.len() {
            assert(s[j] == y);
        }
    }
    assert forall|y: A| s.to_set().insert(x).contains(y) implies s.push(x).to_set().contains(
        y,
    ) by {
        if s.contains(y) {
            let j = choose|j: int| 0 <= j < s.len() && s[j] == y;
            assert(s.push(x)[j] == y);
        } else {
            assert(s.push(x)[s.len() as int] == y);
        }
    }
    assert(s.push(x).to_set() =~= s.to_set().insert(x));
}

/// Appending an element that a duplicate-free sequence does not contain
/// keeps it duplicate-free.
pub(crate) proof fn lemma_push_no_duplicates<A>(s: Seq<A>, x: A)
    requires
        s.no_duplicates(),
        !s.contains(x),
    ensures
        s.push(x).no_duplicates(),
{
    let t = s.push(x);
    assert forall|a: int, b: int|
        0 <= a < t.len() && 0 <= b < t.len() && a != b implies t[a] != t[b] by {
        if a < s.len() && b < s.len() {
            assert(s[a] == t[a] && s[b] == t[b]);
        } else if b == s.len() && a < s.len() {
            assert(t[b] == x);
            assert(s[a] == t[a]);
            if s[a] == x {
                assert(s.contains(x));
            }
        } else if a == s.len() && b < s.len() {
            assert(t[a] == x);
            assert(s[b] == t[b]);
            if s[b] == x {
                assert(s.contains(x));
            }
        }
    }
}

/// An actor's incoming channel: a FIFO queue of messages.
pub trait InChannel: Sized {
    type Message;

    type Key: EqKey;

    /// Every message ever enqueued, oldest first, tagged by its sender.
    spec fn history(&self) -> Seq<(Self::Key, Self::Message)>;

    /// How many messages have been delivered so far.
    spec fn taken(&self) -> int;

    /// Whether producers may still enqueue messages.
    spec fn is_open(&self) -> bool;

    /// Bookkeeping invariant.
    spec fn wf(&self) -> bool;

    /// A well-formed channel has delivered no more than was enqueued.
    proof fn lemma_wf(&self)
        requires
            self.wf(),
        ensures
            0 <= self.taken() <= self.history().len(),
    ;

    /// The empty channel.
    fn new() -> (r: Self)
        ensures
            r.wf(),
            r.history() == Seq::<(Self::Key, Self::Message)>::empty(),
            r.taken() == 0,
            r.is_open(),
    ;

    /// Take the next pending message, if one is pending: messages come out in
    /// the order they were enqueued.
    fn recv(&mut self) -> (r: Option<Self::Message>)
        requires
            old(self).wf(),
        ensures
            final(self).wf(),
            final(self).history() == old(self).history(),
            final(self).is_open() == old(self).is_open(),
            old(self).taken() < old(self).history().len() ==> {
                &&& r == Some(old(self).history()[old(self).taken()].1)
                &&& final(self).taken() == old(self).taken() + 1
            },
            old(self).taken() == old(self).history().len() ==> r is None && *final(self) == *old(
                self,
            ),
    ;

    /// Take the next pending message, if one is pending. The model leaves the
    /// passage of time to the runtime's clock, so the duration is not
    /// inspected here; a run out of pending messages is reported as `None`,
    /// exactly as an elapsed deadline is.
    fn recv_timeout(&mut self, timeout: u64) -> (r: Option<Self::Message>)
        requires
            old(self).wf(),
        ensures
            final(self).wf(),
            final(self).history() == old(self).history(),
            final(self).is_open() == old(self).is_open(),
            old(self).taken() < old(self).history().len() ==> {
                &&& r == Some(old(self).history()[old(self).taken()].1)
                &&& final(self).taken() == old(self).taken() + 1
            },
            old(self).taken() == old(self).history().len() ==> r is None && *final(self) == *old(
                self,
            ),
    ;
}

/// An actor's outgoing channels: destinations addressed by key.
///
/// A send is accepted exactly when its key has been declared; accepted
/// messages queue up until the runtime routes them.
pub trait OutChannels: Sender {
    /// The set of declared destination keys.
    spec fn declared(&self) -> Set<Self::Key>;

    /// The accepted messages not yet routed, oldest first.
    spec fn buffered(&self) -> Seq<(Self::Key, Self::Message)>;

    /// The empty outbox, with no declared destinations.
    fn new() -> (r: Self)
        ensures
            r.declared() == Set::<Self::Key>::empty(),
            r.buffered() == Seq::<(Self::Key, Self::Message)>::empty(),
            r.sent() == Seq::<(Self::Key, Self::Message)>::empty(),
    ;

    /// Declare `key` as a destination. Returns whether a producer handle was
    /// already installed for it.
    fn insert(&mut self, key: Self::Key) -> (had: bool)
        ensures
            had <==> old(self).declared().contains(key),
            final(self).declared() == old(self).declared().insert(key),
            final(self).buffered() == old(self).buffered(),
            final(self).sent() == old(self).sent(),
    ;

    /// Remove the destination `key`. Returns whether it was declared.
    fn remove(&mut self, key: Self::Key) -> (had: bool)
        ensures
            had <==> old(self).declared().contains(key),
            final(self).declared() == old(self).declared().remove(key),
            final(self).buffered() == old(self).buffered(),
            final(self).sent() == old(self).sent(),
    ;
}

/// The FIFO inbox of one actor.
pub struct Inbox<K, M> {
    queue: Vec<M>,
    open: bool,
    hist: Ghost<Seq<(K, M)>>,
    delivered: Ghost<int>,
}

impl<K: EqKey, M> Inbox<K, M> {
    /// Enqueue a message; the ghost tag names the sending actor.
    pub fn push(&mut self, from: Ghost<K>, message: M)
        requires
            old(self).wf(),
        ensures
            final(self).wf(),
            final(self).history() == old(self).history().push((from@, message)),
            final(self).taken() == old(self).taken(),
            final(self).is_open() == old(self).is_open(),
    {
        proof {
            lemma_seq_skip_of_skip::<(K, M)>(self.hist@, 0, 0);
        }
        self.queue.push(message);
        proof {
            let t = self.delivered@;
            let h0 = self.hist@;
            self.hist@ = self.hist@.push((from@, message));
            assert(self.hist@.skip(t).map_values(|p: (K, M)| p.1) =~= h0.skip(t).map_values(
                |p: (K, M)| p.1,
            ).push(message));
        }
    }

    /// Whether a message is pending.
    pub fn has_pending(&self) -> (r: bool)
        requires
            self.wf(),
        ensures
            r <==> self.taken() < self.history().len(),
    {
        self.queue.len() > 0
    }

    /// Mark the channel closed: all producer handles are gone.
    pub fn close(&mut self)
        requires
            old(self).wf(),
        ensures
            final(self).wf(),
            final(self).history() == old(self).history(),
            final(self).taken() == old(self).taken(),
            !final(self).is_open(),
    {
        self.open = false;
    }

    fn take_front(&mut self) -> (r: Option<M>)
        requires
            old(self).wf(),
        ensures
            final(self).wf(),
            final(self).history() == old(self).history(),
            final(self).is_open() == old(self).is_open(),
            old(self).taken() < old(self).history().len() ==> {
                &&& r == Some(old(self).history()[old(self).taken()].1)
                &&& final(self).taken() == old(self).taken() + 1
            },
            old(self).taken() == old(self).history().len() ==> r is None && *final(self) == *old(
                self,
            ),
    {
        if self.queue.len() == 0 {
            return None;
        }
        let m = self.queue.remove(0);
        proof {
            let t = self.delivered@;
            let h = self.hist@;
            assert(h.skip(t).map_values(|p: (K, M)| p.1)[0] == m);
            self.delivered@ = t + 1;
            assert(h.skip(t + 1).map_values(|p: (K, M)| p.1) =~= h.skip(t).map_values(
                |p: (K, M)| p.1,
            ).skip(1));
        }
        Some(m)
    }
}

impl<K: EqKey, M> InChannel for Inbox<K, M> {
    type Message = M;

    type Key = K;

    closed spec fn history(&self) -> Seq<(K, M)> {
        self.hist@
    }

    closed spec fn taken(&self) -> int {
        self.delivered@
    }

    closed spec fn is_open(&self) -> bool {
        self.open
    }

    closed spec fn wf(&self) -> bool {
        &&& 0 <= self.delivered@ <= self.hist@.len()
        &&& self.queue@ == self.hist@.skip(self.delivered@).map_values(|p: (K, M)| p.1)
    }

    proof fn lemma_wf(&self) {
    }

    fn new() -> (r: Self) {
        let r = Inbox {
            queue: Vec::new(),
            open: true,
            hist: Ghost(Seq::empty()),
            delivered: Ghost(0),
        };
        proof {
            assert(r.queue@ =~= r.hist@.skip(0).map_values(|p: (K, M)| p.1));
        }
        r
    }

    fn recv(&mut self) -> (r: Option<M>) {
        self.take_front()
    }

    fn recv_timeout(&mut self, timeout: u64) -> (r: Option<M>) {
        self.take_front()
    }
}

/// The set of destinations an outbox has declared.
pub closed spec fn outbox_declared<K, M>(outbox: &Outbox<K, M>) -> Set<K> {
    outbox.keys@.to_set()
}

/// The outbox of one actor: its declared destinations and the messages it has
/// accepted since the runtime last routed them.
pub struct Outbox<K, M> {
    keys: Vec<K>,
    buffer: Vec<(K, M)>,
    log: Ghost<Seq<(K, M)>>,
    routed: Ghost<int>,
}

impl<K: EqKey, M> Outbox<K, M> {
    /// Hand the accepted, unrouted messages to the runtime, in send order.
    pub fn take_outgoing(&mut self) -> (r: Vec<(K, M)>)
        ensures
            final(self).wf_outbox(),
            r@ == old(self).buffered(),
            final(self).buffered() == Seq::<(K, M)>::empty(),
            final(self).sent() == old(self).sent(),
            final(self).declared() == old(self).declared(),
    {
        let mut out: Vec<(K, M)> = Vec::new();
        core::mem::swap(&mut out, &mut self.buffer);
        proof {
            self.routed@ = self.log@.len() as int;
            assert(self.buffer@ =~= self.log@.skip(self.log@.len() as int));
        }
        out
    }

    /// Bookkeeping invariant: the unrouted buffer is exactly the tail of the
    /// send log.
    pub closed spec fn wf_outbox(&self) -> bool {
        &&& 0 <= self.routed@ <= self.log@.len()
        &&& self.buffer@ == self.log@.skip(self.routed@)
    }

    /// Whether `key` is a declared destination.
    pub fn declares(&self, key: &K) -> (r: bool)
        ensures
            r <==> self.declared().contains(*key),
    {
        self.find_key(key)
    }

    fn find_key(&self, key: &K) -> (r: bool)
        ensures
            r <==> self.keys@.contains(*key),
    {
        let n = self.keys.len();
        let mut i: usize = 0;
        while i < n
            invariant
                n == self.keys@.len(),
                0 <= i <= n,
                forall|j: int| 0 <= j < i ==> self.keys@[j] != *key,
            decreases n - i,
        {
            if self.keys[i].key_eq(key) {
                return true;
            }
            i = i + 1;
        }
        false
    }
}

impl<K: EqKey, M> Sender for Outbox<K, M> {
    type Message = M;

    type Key = K;

    closed spec fn sent(&self) -> Seq<(K, M)> {
        self.log@
    }

    open spec fn can_send(&self, key: K) -> bool {
        outbox_declared(self).contains(key)
    }

    fn send(&mut self, key: &K, message: M) -> (r: Result<(), SendError<(K, M)>>) {
        if self.find_key(key) {
            self.buffer.push((*key, message));
            proof {
                self.log@ = self.log@.push((*key, message));
            }
            Ok(())
        } else {
            Err(SendError((*key, message)))
        }
    }
}

impl<K: EqKey, M> OutChannels for Outbox<K, M> {
    open spec fn declared(&self) -> Set<K> {
        outbox_declared(self)
    }

    closed spec fn buffered(&self) -> Seq<(K, M)> {
        self.buffer@
    }

    fn new() -> (r: Self) {
        let r = Outbox {
            keys: Vec::new(),
            buffer: Vec::new(),
            log: Ghost(Seq::empty()),
            routed: Ghost(0),
        };
        proof {
            assert(r.keys@.to_set() =~= Set::<K>::empty());
        }
        r
    }

    fn insert(&mut self, key: K) -> (had: bool) {
        let had = self.find_key(&key);
        if !had {
            self.keys.push(key);
            proof {
                lemma_push_to_set(old(self).keys@, key);
            }
        } else {
            proof {
                assert(self.keys@.to_set() =~= self.keys@.to_set().insert(key));
            }
        }
        had
    }

    fn remove(&mut self, key: K) -> (had: bool) {
        let n = self.keys.len();
        let ghost pre = self.keys@;
        let mut kept: Vec<K> = Vec::new();
        let mut had = false;
        let mut i: usize = 0;
        while i < n
            invariant
                n == pre.len(),
                self.keys@ == pre,
                0 <= i <= n,
                had <==> exists|j: int| 0 <= j < i && pre[j] == key,
                forall|x: K| kept@.contains(x) ==> pre.contains(x) && x != key,
                forall|j: int| 0 <= j < i && pre[j] != key ==> kept@.contains(#[trigger] pre[j]),
            decreases n - i,
        {
            let k = self.keys[i];
            if k.key_eq(&key) {
                had = true;
            } else {
                let ghost kept0 = kept@;
                kept.push(k);
                proof {
                    assert forall|x: K| kept0.contains(x) implies kept@.contains(x) by {
                        let j = choose|j: int| 0 <= j < kept0.len() && kept0[j] == x;
                        assert(kept@[j] == x);
                    }
                    assert(kept@[kept0.len() as int] == pre[i as int]);
                }
            }
            i = i + 1;
        }
        self.keys = kept;
        proof {
            assert forall|x: K| self.keys@.to_set().contains(x) implies pre.to_set().remove(
                key,
            ).contains(x) by {}
            assert forall|x: K| pre.to_set().remove(key).contains(x) implies self.keys@
                .to_set().contains(x) by {
                let j = choose|j: int| 0 <= j < pre.len() && pre[j] == x;
            }
            assert(self.keys@.to_set() =~= pre.to_set().remove(key));
            assert(had <==> pre.to_set().contains(key)) by {
                if pre.to_set().contains(key) {
                    let j = choose|j: int| 0 <= j < pre.len() && pre[j] == key;
                }
            }
        }
        had
    }
}

/// FIFO, stated per sender: at any point, the messages delivered so far from
/// sender `k` are a prefix of the messages `k` enqueued, in enqueue order.
pub proof fn lemma_fifo_per_sender<K, M>(history: Seq<(K, M)>, taken: int, k: K)
    requires
        0 <= taken <= history.len(),
    ensures
        from_sender(history.take(taken), k).is_prefix_of(from_sender(history, k)),
{
    let pred = |p: (K, M)| p.0 == k;
    assert(history =~= history.take(taken) + history.skip(taken));
    Seq::<(K, M)>::filter_distributes_over_add(history.take(taken), history.skip(taken), pred);
    let fa = history.take(taken).filter(pred);
    let fb = history.skip(taken).filter(pred);
    assert(history.filter(pred) == fa + fb);
    assert(from_sender(history, k) =~= from_sender(history.take(taken), k) + fb.map_values(
        |p: (K, M)| p.1,
    ));
}

} // verus!
