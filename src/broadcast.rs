use vstd::prelude::*;
use crate::message::{Message, MessageView};

verus! {

/// Backlog capacity of the process-wide broadcaster.
pub const DEFAULT_CAPACITY: usize = 1024;

/// The abstract state of a broadcaster.
pub struct BroadcasterView {
    /// How many messages the backlog keeps for slow readers.
    pub capacity: nat,
    /// Every message that was accepted for delivery, oldest first.
    pub history: Seq<MessageView>,
    /// How many of the newest messages of `history` are still retained.
    pub retained: nat,
    /// Number of live subscriptions.
    pub receivers: nat,
    /// Whether the broadcaster has been torn down.
    pub closed: bool,
}

impl BroadcasterView {
    /// Position in `history` of the oldest retained message.
    pub open spec fn start(self) -> nat {
        (self.history.len() - self.retained) as nat
    }

    /// The shape every reachable state has.
    pub open spec fn wf(self) -> bool {
        &&& self.capacity > 0
        &&& self.retained <= self.capacity
        &&& self.retained <= self.history.len()
        &&& self.retained < self.capacity ==> self.retained == self.history.len()
    }

    /// The retained messages, oldest first.
    pub open spec fn backlog(self) -> Seq<MessageView> {
        self.history.subrange(self.start() as int, self.history.len() as int)
    }
}

/// What a receiver observes on one read, by position in the history.
pub enum Delivery {
    /// The message at this position of the history.
    Message(nat),
    /// The reader fell behind the backlog and skipped this many messages.
    Lagged(nat),
    /// Nothing new yet.
    Empty,
    /// The broadcaster was torn down.
    Closed,
}

/// One read by a receiver whose cursor is `next`: what it observes and
/// where its cursor goes.
pub open spec fn recv_step(b: BroadcasterView, next: nat) -> (Delivery, nat) {
    if b.closed {
        (Delivery::Closed, next)
    } else if next < b.start() {
        (Delivery::Lagged((b.start() - next) as nat), b.start())
    } else if next < b.history.len() {
        (Delivery::Message(next), next + 1)
    } else {
        (Delivery::Empty, next)
    }
}

/// The state after `m` is published: it is recorded only where someone listens.
pub open spec fn publish_step(b: BroadcasterView, m: MessageView) -> BroadcasterView {
    if b.closed || b.receivers == 0 {
        b
    } else {
        BroadcasterView {
            history: b.history.push(m),
            retained: if b.retained < b.capacity {
                b.retained + 1
            } else {
                b.capacity
            },
            ..b
        }
    }
}

/// The state after each of `ms` is published in turn.
pub open spec fn publish_all(b: BroadcasterView, ms: Seq<MessageView>) -> BroadcasterView
    decreases ms.len(),
{
    if ms.len() == 0 {
        b
    } else {
        publish_step(publish_all(b, ms.drop_last()), ms.last())
    }
}

/// Publishing while someone listens appends to the history and keeps the
/// newest `capacity` messages.
pub proof fn lemma_publish_all(b: BroadcasterView, ms: Seq<MessageView>)
    requires
        b.wf(),
        b.receivers > 0,
        !b.closed,
    ensures
        publish_all(b, ms).wf(),
        publish_all(b, ms).history == b.history + ms,
        publish_all(b, ms).retained == if b.retained + ms.len() <= b.capacity {
            b.retained + ms.len()
        } else {
            b.capacity
        },
        publish_all(b, ms).capacity == b.capacity,
        publish_all(b, ms).receivers == b.receivers,
        !publish_all(b, ms).closed,
    decreases ms.len(),
{
    if ms.len() > 0 {
        lemma_publish_all(b, ms.drop_last());
        assert(b.history + ms.drop_last() + seq![ms.last()] =~= b.history + ms);
    }
}

/// A fan-out channel with a bounded backlog: every subscriber receives every
/// message published after it subscribed, unless it falls too far behind.
/// Each receiver is a plain cursor, so one value holds the whole channel's
/// state; tasks that share it take turns behind a lock.
pub struct Broadcaster {
    capacity: usize,
    backlog: Vec<Message>,
    sent: u64,
    receivers: u64,
    closed: bool,
    history: Ghost<Seq<MessageView>>,
}

/// A subscriber's private read cursor into a broadcaster.
pub struct Receiver {
    next: u64,
}

/// The result of one read.
pub enum RecvResult {
    Message(Message),
    Lagged(u64),
    Empty,
    Closed,
}

impl View for Broadcaster {
    type V = BroadcasterView;

    closed spec fn view(&self) -> BroadcasterView {
        BroadcasterView {
            capacity: self.capacity as nat,
            history: self.history@,
            retained: self.backlog@.len(),
            receivers: self.receivers as nat,
            closed: self.closed,
        }
    }
}

impl Receiver {
    /// Position in the history of the next message this receiver reads.
    pub closed spec fn cursor(&self) -> nat {
        self.next as nat
    }
}

impl RecvResult {
    /// Whether this result is what `d` describes for the broadcaster `b`.
    pub open spec fn matches(&self, d: Delivery, b: BroadcasterView) -> bool {
        match (*self, d) {
            (RecvResult::Message(m), Delivery::Message(i)) => i < b.history.len() && m@
                == b.history[i as int] && m.wf(),
            (RecvResult::Lagged(n), Delivery::Lagged(k)) => n as nat == k,
            (RecvResult::Empty, Delivery::Empty) => true,
            (RecvResult::Closed, Delivery::Closed) => true,
            _ => false,
        }
    }
}

impl Broadcaster {
    /// The structural invariant.
    pub closed spec fn wf(&self) -> bool {
        &&& self.capacity > 0
        &&& self.backlog@.len() <= self.capacity
        &&& self.backlog@.len() <= self.history@.len()
        &&& (self.backlog@.len() < self.capacity ==> self.backlog@.len() == self.history@.len())
        &&& self.sent as nat == self.history@.len()
        &&& forall|i: int|
            0 <= i < self.backlog@.len() ==> (#[trigger] self.backlog@[i])@ == self.history@[(
            self.history@.len() - self.backlog@.len()) + i] && self.backlog@[i].wf()
    }

    /// Facts about the view that follow from the invariant.
    pub proof fn lemma_view(&self)
        requires
            self.wf(),
        ensures
            self@.wf(),
            self@.history.len() <= u64::MAX,
    {
    }

    /// A broadcaster that keeps up to `capacity` messages for slow readers.
    pub fn new(capacity: usize) -> (r: Broadcaster)
        requires
            capacity > 0,
        ensures
            r.wf(),
            r@ == (BroadcasterView {
                capacity: capacity as nat,
                history: Seq::empty(),
                retained: 0,
                receivers: 0,
                closed: false,
            }),
    {
        Broadcaster {
            capacity,
            backlog: Vec::new(),
            sent: 0,
            receivers: 0,
            closed: false,
            history: Ghost(Seq::empty()),
        }
    }

    /// Number of messages accepted for delivery so far.
    pub fn published(&self) -> (r: u64)
        requires
            self.wf(),
        ensures
            r as nat == self@.history.len(),
    {
        self.sent
    }

    /// Number of live subscriptions.
    pub fn receiver_count(&self) -> (r: u64)
        ensures
            r as nat == self@.receivers,
    {
        self.receivers
    }

    pub fn is_closed(&self) -> (r: bool)
        ensures
            r == self@.closed,
    {
        self.closed
    }

    /// A new receiver that observes every message published from now on.
    pub fn subscribe(&mut self) -> (r: Receiver)
        requires
            old(self).wf(),
            old(self)@.receivers < u64::MAX,
        ensures
            final(self).wf(),
            final(self)@ == (BroadcasterView { receivers: old(self)@.receivers + 1, ..old(self)@ }),
            r.cursor() == old(self)@.history.len(),
    {
        self.receivers = self.receivers + 1;
        Receiver { next: self.sent }
    }

    /// Ends a subscription.
    pub fn unsubscribe(&mut self, r: Receiver)
        requires
            old(self).wf(),
        ensures
            final(self).wf(),
            final(self)@ == (BroadcasterView {
                receivers: if old(self)@.receivers > 0 {
                    (old(self)@.receivers - 1) as nat
                } else {
                    0
                },
                ..old(self)@
            }),
    {
        if self.receivers > 0 {
            self.receivers = self.receivers - 1;
        }
    }

    /// Tears the broadcaster down: every receiver reads `Closed` from now on.
    pub fn close(&mut self)
        requires
            old(self).wf(),
        ensures
            final(self).wf(),
            final(self)@ == (BroadcasterView { closed: true, ..old(self)@ }),
    {
        self.closed = true;
    }

    /// Hands a copy of `m` to every live subscription and returns how many
    /// there were. With none, or once closed, the message is dropped.
    pub fn publish(&mut self, m: Message) -> (delivered: u64)
        requires
            old(self).wf(),
            m.wf(),
            old(self)@.history.len() < u64::MAX,
        ensures
            final(self).wf(),
            final(self)@ == publish_step(old(self)@, m@),
            delivered as nat == if old(self)@.closed {
                0
            } else {
                old(self)@.receivers
            },
    {
        if self.closed || self.receivers == 0 {
            return 0;
        }
        let ghost old_backlog = self.backlog@;
        let ghost old_history = self.history@;
        self.history = Ghost(self.history@.push(m@));
        self.backlog.push(m);
        self.sent = self.sent + 1;
        if self.backlog.len() > self.capacity {
            self.backlog.remove(0);
        }
        assert forall|i: int| 0 <= i < self.backlog@.len() implies (
        #[trigger] self.backlog@[i])@ == self.history@[(self.history@.len() - self.backlog@.len())
            + i] && self.backlog@[i].wf() by {
            if old_backlog.len() < self.capacity {
                if i < old_backlog.len() {
                    assert(self.backlog@[i] == old_backlog[i]);
                }
            } else {
                if i + 1 < old_backlog.len() {
                    assert(self.backlog@[i] == old_backlog[i + 1]);
                }
            }
        }
        self.receivers
    }

    /// One read by `r`: the next message, a lag notice, nothing yet, or the
    /// end of the stream.
    pub fn recv(&self, r: &mut Receiver) -> (res: RecvResult)
        requires
            self.wf(),
            old(r).cursor() <= self@.history.len(),
        ensures
            res.matches(recv_step(self@, old(r).cursor()).0, self@),
            final(r).cursor() == recv_step(self@, old(r).cursor()).1,
            final(r).cursor() <= self@.history.len(),
    {
        if self.closed {
            return RecvResult::Closed;
        }
        let start: u64 = self.sent - self.backlog.len() as u64;
        if r.next < start {
            let skipped: u64 = start - r.next;
            r.next = start;
            RecvResult::Lagged(skipped)
        } else if r.next < self.sent {
            let i: usize = (r.next - start) as usize;
            let m = self.backlog[i].duplicate();
            r.next = r.next + 1;
            RecvResult::Message(m)
        } else {
            RecvResult::Empty
        }
    }
}

} // verus!
