//! The channel capabilities a compute node consumes.
//!
//! The node never owns a channel implementation; it only relies on the two
//! contracts below. A receiver is modeled by the sequence of items it still
//! has to hand out and by what it reports once that sequence is drained; a
//! sender is modeled by the sequence of items pushed through it so far.
//! [`FifoReceiver`] and [`FifoSender`] are in-memory implementations of the
//! two capabilities, suitable for single-threaded use and for exercising a
//! node end to end.

use vstd::prelude::*;

verus! {

/// What a receiver reports once every buffered item has been handed out.
#[derive(Clone, Copy, Debug, PartialEq, Eq, Structural)]
pub enum Terminal {
    /// The channel was closed for new data and fully drained; no item will
    /// ever arrive again.
    Corked,
    /// A peer failed mid-operation and left the channel in an unreliable
    /// state; nothing read from it afterwards can be trusted.
    Poisoned,
}

/// The outcome of one receive attempt.
#[derive(Clone, Copy, Debug, PartialEq, Eq, Structural)]
pub enum RecvOutcome<T> {
    /// The next buffered item, in arrival order.
    Item(T),
    /// The channel is corked: closed and fully drained.
    Corked,
    /// The channel is poisoned.
    Poisoned,
}

/// The receive outcome a drained receiver reports for its terminal state.
pub open spec fn terminal_outcome<T>(t: Terminal) -> RecvOutcome<T> {
    match t {
        Terminal::Corked => RecvOutcome::Corked,
        Terminal::Poisoned => RecvOutcome::Poisoned,
    }
}

/// The receiving half of an upstream channel, as a compute node sees it.
///
/// `pending()` is the sequence of items the endpoint still has to deliver,
/// front first; `terminal()` is what it will report once `pending()` is
/// empty. `recv` delivers the pending items one at a time in FIFO order and
/// then keeps reporting the terminal state.
pub trait ChannelReceiver {
    type Item;

    /// The items this endpoint still has to deliver, front first.
    spec fn pending(&self) -> Seq<Self::Item>;

    /// What this endpoint reports once `pending()` is drained.
    spec fn terminal(&self) -> Terminal;

    /// Receive one item, blocking until an item, the corked signal or a
    /// fault is available.
    fn recv(&mut self) -> (r: RecvOutcome<Self::Item>)
        ensures
            final(self).terminal() == old(self).terminal(),
            old(self).pending().len() > 0 ==> (
                r == RecvOutcome::Item(old(self).pending()[0])
                && final(self).pending() == old(self).pending().drop_first()
            ),
            old(self).pending().len() == 0 ==> (
                final(self).pending() == old(self).pending()
                && r == terminal_outcome::<Self::Item>(old(self).terminal())
            ),
    ;
}

/// The sending half of a downstream channel, as a compute node sees it.
///
/// `sent()` is the sequence of items pushed through the endpoint so far, in
/// order. `send` appends exactly one item to it.
pub trait ChannelSender {
    type Item;

    /// Every item pushed through this endpoint so far, in order.
    spec fn sent(&self) -> Seq<Self::Item>;

    /// Hand one item to the channel, blocking while the channel applies
    /// backpressure.
    fn send(&mut self, item: Self::Item)
        ensures
            final(self).sent() == old(self).sent().push(item),
    ;
}

/// An in-memory receiving endpoint: a FIFO queue of items followed by a
/// fixed terminal state.
pub struct FifoReceiver<T> {
    queue: Vec<T>,
    terminal: Terminal,
}

impl<T> FifoReceiver<T> {
    /// An endpoint that will deliver `items` front first and then report
    /// `terminal`.
    pub fn new(items: Vec<T>, terminal: Terminal) -> (r: Self)
        ensures
            r.pending() == items@,
            r.terminal() == terminal,
    {
        FifoReceiver { queue: items, terminal }
    }
}

impl<T> ChannelReceiver for FifoReceiver<T> {
    type Item = T;

    closed spec fn pending(&self) -> Seq<T> {
        self.queue@
    }

    closed spec fn terminal(&self) -> Terminal {
        self.terminal
    }

    fn recv(&mut self) -> (r: RecvOutcome<T>) {
        if self.queue.len() > 0 {
            let item = self.queue.remove(0);
            proof {
                assert(self.queue@ =~= old(self).queue@.drop_first());
            }
            RecvOutcome::Item(item)
        } else {
            match self.terminal {
                Terminal::Corked => RecvOutcome::Corked,
                Terminal::Poisoned => RecvOutcome::Poisoned,
            }
        }
    }
}

/// An in-memory sending endpoint that records every item pushed through it.
pub struct FifoSender<T> {
    delivered: Vec<T>,
}

impl<T> FifoSender<T> {
    /// An endpoint through which nothing has been sent yet.
    pub fn new() -> (r: Self)
        ensures
            r.sent() == Seq::<T>::empty(),
    {
        FifoSender { delivered: Vec::new() }
    }

    /// The items sent through this endpoint so far, in order.
    pub fn sent_items(&self) -> (r: &Vec<T>)
        ensures
            r@ == self.sent(),
    {
        &self.delivered
    }
}

impl<T> ChannelSender for FifoSender<T> {
    type Item = T;

    closed spec fn sent(&self) -> Seq<T> {
        self.delivered@
    }

    fn send(&mut self, item: T) {
        self.delivered.push(item);
    }
}

} // verus!
