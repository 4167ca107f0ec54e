//! A channel for sending messages to a thread that runs a loop.
//!
//! The channel is split into a [`Sender`], which can be cloned and handed to
//! other threads, and a [`Receiver`], which is attached to the loop. The
//! messages wait in a queue that both share. How the loop is woken when the
//! first message arrives is the business of whoever owns the loop:
//! [`Sender::send`] takes it as a function, calls it when waking is due, and
//! queues nothing where it fails.

use std::collections::VecDeque;
use std::sync::Arc;
use vstd::prelude::*;
use vstd::rwlock::{RwLock, RwLockPredicate};

verus! {

/// The state that the senders and the receiver of a channel share: the
/// messages that wait to be received, the oldest first.
pub struct Channel<T> {
    queue: VecDeque<T>,
}

impl<T> View for Channel<T> {
    type V = Seq<T>;

    closed spec fn view(&self) -> Seq<T> {
        self.queue@
    }
}

impl<T> Channel<T> {
    /// A channel in which no message waits.
    pub fn new() -> (r: Self)
        ensures
            r@.len() == 0,
    {
        Channel { queue: VecDeque::new() }
    }

    /// Number of messages that wait.
    pub fn len(&self) -> (r: usize)
        ensures
            r == self@.len(),
    {
        self.queue.len()
    }

    /// Whether no message waits.
    pub fn is_empty(&self) -> (r: bool)
        ensures
            r <==> self@.len() == 0,
    {
        self.queue.len() == 0
    }

    /// Puts a message behind those that wait, after the receiver was woken
    /// if none was waiting. `wake` is called in that case only, and tells
    /// whether it woke the receiver. Where it did not, nothing is queued and
    /// the message is handed back.
    pub fn send<F: FnOnce() -> bool>(&mut self, message: T, wake: F) -> (r: Result<(), T>)
        requires
            call_requires(wake, ()),
        ensures
            old(self)@.len() > 0 ==> r is Ok,
            match r {
                Ok(_) => final(self)@ == old(self)@.push(message) && (old(self)@.len() == 0
                    ==> call_ensures(wake, (), true)),
                Err(back) => back == message && final(self)@ == old(self)@ && old(self)@.len()
                    == 0 && call_ensures(wake, (), false),
            },
    {
        if self.queue.len() == 0 {
            if !wake() {
                return Err(message);
            }
        }
        self.queue.push_back(message);
        Ok(())
    }

    /// Takes out all messages that wait, the oldest first.
    pub fn drain(&mut self) -> (r: Vec<T>)
        ensures
            r@ == old(self)@,
            final(self)@.len() == 0,
    {
        let mut out: Vec<T> = Vec::new();
        loop
            invariant
                out@ + self@ == old(self)@,
            decreases self@.len(),
        {
            match self.queue.pop_front() {
                Some(message) => {
                    let ghost before = out@;
                    out.push(message);
                    assert(out@ + self@ =~= old(self)@);
                },
                None => {
                    assert(out@ =~= old(self)@);
                    return out;
                },
            }
        }
    }
}

/// What the lock of a channel asks of the state it guards: nothing.
pub struct AnyState;

impl<T> RwLockPredicate<Channel<T>> for AnyState {
    open spec fn inv(self, state: Channel<T>) -> bool {
        true
    }
}

/// Another pointer to what `shared` points to.
///
/// Calls `Arc::clone`, which makes no copy of the value: the new pointer
/// and the old one point to the same allocation.
#[verifier::external_body]
fn share<T>(shared: &Arc<T>) -> (r: Arc<T>)
    ensures
        r == *shared,
{
    shared.clone()
}

/// A receiver that has not been attached to a loop.
///
/// Use its [`attach`](Self::attach) function to receive messages by
/// attaching it to a loop.
#[verifier::reject_recursive_types(T)]
pub struct Receiver<T> {
    channel: Arc<RwLock<Channel<T>, AnyState>>,
}

/// A [`Receiver`] that has been attached to a loop.
#[verifier::reject_recursive_types(T)]
pub struct AttachedReceiver<T> {
    source: u64,
    receiver: Receiver<T>,
}

/// A `Sender` can be used to send messages to its associated [`Receiver`].
///
/// It can be freely cloned, so you can send messages from multiple places.
#[verifier::reject_recursive_types(T)]
pub struct Sender<T> {
    channel: Arc<RwLock<Channel<T>, AnyState>>,
}

impl<T> Receiver<T> {
    /// The lock that guards the queue from which this receiver takes its
    /// messages.
    pub closed spec fn shared(&self) -> RwLock<Channel<T>, AnyState> {
        *self.channel
    }

    /// Attaches the receiver to a loop, which knows it as `source`.
    pub fn attach(self, source: u64) -> (r: AttachedReceiver<T>)
        ensures
            r.source() == source,
            r.receiver() == self,
    {
        AttachedReceiver { source, receiver: self }
    }

    /// Takes out all messages that wait, the oldest first.
    pub fn receive(&self) -> (r: Vec<T>) {
        let (mut channel, handle) = self.channel.acquire_write();
        let messages = channel.drain();
        handle.release_write(channel);
        messages
    }
}

impl<T> AttachedReceiver<T> {
    /// What the loop knows this receiver as.
    pub closed spec fn source(self) -> u64 {
        self.source
    }

    /// The receiver that was attached.
    pub closed spec fn receiver(self) -> Receiver<T> {
        self.receiver
    }

    /// What the loop knows this receiver as.
    pub fn source_id(&self) -> (r: u64)
        ensures
            r == self.source(),
    {
        self.source
    }

    /// Takes out all messages that wait, the oldest first.
    pub fn receive(&self) -> (r: Vec<T>) {
        self.receiver.receive()
    }

    /// Detach the receiver from the loop.
    ///
    /// No more messages will be received until you attach it to a loop again.
    #[must_use]
    pub fn deattach(self) -> (r: Receiver<T>)
        ensures
            r == self.receiver(),
    {
        self.receiver
    }
}

impl<T> Sender<T> {
    /// The lock that guards the queue into which this sender puts its
    /// messages.
    pub closed spec fn shared(&self) -> RwLock<Channel<T>, AnyState> {
        *self.channel
    }

    /// Send a message to the associated receiver.
    ///
    /// If no message is waiting, the receiver is woken first: `wake` is
    /// called, while the queue is locked, and tells whether it woke the
    /// receiver. Where it did not, nothing is queued and the message is
    /// returned back to the caller.
    pub fn send<F: FnOnce() -> bool>(&self, message: T, wake: F) -> (r: Result<(), T>)
        requires
            call_requires(wake, ()),
        ensures
            r is Err ==> r->Err_0 == message && call_ensures(wake, (), false),
    {
        let (mut channel, handle) = self.channel.acquire_write();
        let r = channel.send(message, wake);
        handle.release_write(channel);
        r
    }
}

impl<T> Clone for Sender<T> {
    /// Another sender for the same receiver.
    fn clone(&self) -> (r: Self)
        ensures
            r.shared() == self.shared(),
    {
        Sender { channel: share(&self.channel) }
    }
}

/// Create a Sender-Receiver pair, where the sender can be used to send
/// messages to the receiver: the two share one queue, behind one lock.
pub fn channel<T>() -> (r: (Sender<T>, Receiver<T>))
    ensures
        r.0.shared() == r.1.shared(),
{
    let shared = Arc::new(RwLock::new(Channel::new(), Ghost(AnyState)));
    (Sender { channel: share(&shared) }, Receiver { channel: shared })
}

} // verus!
