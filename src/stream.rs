use vstd::prelude::*;
use crate::broadcast::{
    lemma_publish_all, publish_all, publish_step, Broadcaster, BroadcasterView, Receiver, RecvResult,
};
use crate::message::{Message, MessageView};

verus! {

/// What a stream step yields, by position in the history.
pub enum Outcome {
    /// Emit the message at this position as one event.
    Event(nat),
    /// Nothing to emit now; wait for a message or for shutdown.
    Pending,
    /// The stream is over.
    End,
}

/// One step of a subscription stream whose cursor is `cursor`: shutdown, an
/// earlier end or a closed broadcaster finish it; otherwise it emits the next
/// message, skipping silently to the oldest retained one if it fell behind.
pub open spec fn stream_step(b: BroadcasterView, cursor: nat, ended: bool, shutdown: bool) -> (
    Outcome,
    nat,
    bool,
) {
    if ended || shutdown || b.closed {
        (Outcome::End, cursor, true)
    } else if cursor < b.history.len() {
        let i = if cursor < b.start() {
            b.start()
        } else {
            cursor
        };
        (Outcome::Event(i), i + 1, false)
    } else {
        (Outcome::Pending, cursor, false)
    }
}

/// What a stream whose cursor is `cursor` yields when it is polled once in
/// each of the broadcaster states `bs`, in turn, with no shutdown.
pub open spec fn stream_trace(bs: Seq<BroadcasterView>, cursor: nat, ended: bool) -> Seq<Outcome>
    decreases bs.len(),
{
    if bs.len() == 0 {
        Seq::empty()
    } else {
        let (o, c, e) = stream_step(bs[0], cursor, ended, false);
        seq![o] + stream_trace(bs.drop_first(), c, e)
    }
}

/// One outcome per poll.
pub proof fn lemma_trace_len(bs: Seq<BroadcasterView>, cursor: nat, ended: bool)
    ensures
        stream_trace(bs, cursor, ended).len() == bs.len(),
    decreases bs.len(),
{
    if bs.len() > 0 {
        let (o, c, e) = stream_step(bs[0], cursor, ended, false);
        lemma_trace_len(bs.drop_first(), c, e);
    }
}

/// Order: whatever is published between polls, a stream emits only messages
/// at or after the cursor it started from, each at most once and in publish
/// order (the positions it emits strictly increase).
pub proof fn stream_emits_in_order(bs: Seq<BroadcasterView>, cursor: nat, ended: bool)
    ensures
        forall|j: int|
            0 <= j < bs.len() && (#[trigger] stream_trace(bs, cursor, ended)[j]) is Event ==> cursor
                <= stream_trace(bs, cursor, ended)[j]->Event_0,
        forall|j1: int, j2: int|
            0 <= j1 < j2 < bs.len() && (#[trigger] stream_trace(bs, cursor, ended)[j1]) is Event
                && (#[trigger] stream_trace(bs, cursor, ended)[j2]) is Event ==> stream_trace(
                bs,
                cursor,
                ended,
            )[j1]->Event_0 < stream_trace(bs, cursor, ended)[j2]->Event_0,
    decreases bs.len(),
{
    lemma_trace_len(bs, cursor, ended);
    if bs.len() > 0 {
        let (o, c, e) = stream_step(bs[0], cursor, ended, false);
        let t = stream_trace(bs, cursor, ended);
        let rest = stream_trace(bs.drop_first(), c, e);
        stream_emits_in_order(bs.drop_first(), c, e);
        lemma_trace_len(bs.drop_first(), c, e);
        assert(t == seq![o] + rest);
        assert forall|j: int| 0 <= j < bs.len() && (#[trigger] t[j]) is Event implies cursor
            <= t[j]->Event_0 by {
            if j > 0 {
                assert(t[j] == rest[j - 1]);
            }
        }
        assert forall|j1: int, j2: int|
            0 <= j1 < j2 < bs.len() && (#[trigger] t[j1]) is Event && (#[trigger] t[j2]) is Event
                implies t[j1]->Event_0 < t[j2]->Event_0 by {
            assert(t[j2] == rest[j2 - 1]);
            if j1 > 0 {
                assert(t[j1] == rest[j1 - 1]);
            }
        }
    }
}

/// Independence: a stream opened when the history is `b.history` starts its
/// cursor at its end, so in any later states it never emits a message
/// published before it subscribed, whatever earlier subscribers emit.
pub proof fn independent_subscribers(b: BroadcasterView, later: Seq<BroadcasterView>)
    ensures
        forall|j: int|
            0 <= j < later.len() && (#[trigger] stream_trace(later, b.history.len(), false)[j]) is Event
                ==> b.history.len() <= stream_trace(later, b.history.len(), false)[j]->Event_0,
{
    stream_emits_in_order(later, b.history.len(), false);
}

/// A stream polled repeatedly in one state, from a cursor inside the
/// backlog, emits the messages at the cursor and after it, each once, in
/// order.
pub proof fn lemma_trace_in_order(b: BroadcasterView, p: nat, k: nat)
    requires
        !b.closed,
        b.start() <= p,
        p + k <= b.history.len(),
    ensures
        stream_trace(Seq::new(k, |j: int| b), p, false) == Seq::new(
            k,
            |j: int| Outcome::Event((p + j) as nat),
        ),
    decreases k,
{
    if k > 0 {
        lemma_trace_in_order(b, p + 1, (k - 1) as nat);
        assert(Seq::new(k, |j: int| b).drop_first() =~= Seq::new((k - 1) as nat, |j: int| b));
        assert(stream_trace(Seq::new(k, |j: int| b), p, false) =~= Seq::new(
            k,
            |j: int| Outcome::Event((p + j) as nat),
        ));
    }
}

/// Fan-out completeness: a stream opened when the history is `b.history`
/// emits every message published while it is connected, once each and in
/// publish order, as long as no more than the backlog capacity piles up
/// unread.
pub proof fn fan_out_complete(b: BroadcasterView, ms: Seq<MessageView>)
    requires
        b.wf(),
        b.receivers > 0,
        !b.closed,
        ms.len() <= b.capacity,
    ensures
        stream_trace(Seq::new(ms.len(), |j: int| publish_all(b, ms)), b.history.len(), false)
            == Seq::new(ms.len(), |j: int| Outcome::Event((b.history.len() + j) as nat)),
        forall|j: int|
            0 <= j < ms.len() ==> #[trigger] publish_all(b, ms).history[b.history.len() + j]
                == ms[j],
{
    lemma_publish_all(b, ms);
    lemma_trace_in_order(publish_all(b, ms), b.history.len(), ms.len());
}

/// Publishing with no listener succeeds and changes nothing: the message is
/// not kept, the backlog stays within its capacity, and a stream opened
/// afterward never emits it.
pub proof fn publish_without_listeners(b: BroadcasterView, m: MessageView, later: Seq<
    BroadcasterView,
>)
    requires
        b.wf(),
        b.receivers == 0,
    ensures
        publish_step(b, m) == b,
        publish_step(b, m).retained <= b.capacity,
        forall|j: int|
            0 <= j < later.len() && (#[trigger] stream_trace(
                later,
                publish_step(b, m).history.len(),
                false,
            )[j]) is Event ==> b.history.len() <= stream_trace(
                later,
                publish_step(b, m).history.len(),
                false,
            )[j]->Event_0,
{
    stream_emits_in_order(later, b.history.len(), false);
}

/// Lag recovery: a stream that fell behind the backlog skips silently to the
/// oldest retained message and emits it, staying open.
pub proof fn lag_recovery(b: BroadcasterView, cursor: nat)
    requires
        b.wf(),
        !b.closed,
        cursor < b.start(),
    ensures
        b.start() < b.history.len(),
        stream_step(b, cursor, false, false) == (Outcome::Event(b.start()), b.start() + 1, false),
{
}

/// Clean shutdown: once the broadcaster is closed, or the connection is
/// asked to stop, the next step ends the stream without emitting anything,
/// and every later step ends it again.
pub proof fn clean_shutdown(
    b: BroadcasterView,
    later: BroadcasterView,
    cursor: nat,
    ended: bool,
    shutdown: bool,
    again: bool,
)
    requires
        b.closed || ended || shutdown,
    ensures
        stream_step(b, cursor, ended, shutdown).0 is End,
        stream_step(b, cursor, ended, shutdown).2,
        stream_step(
            later,
            stream_step(b, cursor, ended, shutdown).1,
            stream_step(b, cursor, ended, shutdown).2,
            again,
        ).0 is End,
{
}

/// What one step of a stream hands to the connection.
pub enum StreamItem {
    Event(Message),
    Pending,
    End,
}

impl StreamItem {
    /// Whether this item is what `o` describes for the broadcaster `b`.
    pub open spec fn matches(&self, o: Outcome, b: BroadcasterView) -> bool {
        match (*self, o) {
            (StreamItem::Event(m), Outcome::Event(i)) => i < b.history.len() && m@ == b.history[i
                as int] && m.wf(),
            (StreamItem::Pending, Outcome::Pending) => true,
            (StreamItem::End, Outcome::End) => true,
            _ => false,
        }
    }
}

/// One client's long-lived read-only connection to a broadcaster.
pub struct Subscription {
    rx: Receiver,
    ended: bool,
}

impl Subscription {
    /// Position in the history of the next message this stream can emit.
    pub closed spec fn cursor(&self) -> nat {
        self.rx.cursor()
    }

    /// Whether the stream has finished.
    pub closed spec fn ended(&self) -> bool {
        self.ended
    }

    /// Registers a new subscription before anything is yielded, so that no
    /// message published from now on is missed.
    pub fn open(b: &mut Broadcaster) -> (s: Subscription)
        requires
            old(b).wf(),
            old(b)@.receivers < u64::MAX,
        ensures
            final(b).wf(),
            final(b)@ == (BroadcasterView { receivers: old(b)@.receivers + 1, ..old(b)@ }),
            s.cursor() == old(b)@.history.len(),
            !s.ended(),
    {
        Subscription { rx: b.subscribe(), ended: false }
    }

    /// Whether the stream has finished.
    pub fn is_ended(&self) -> (r: bool)
        ensures
            r == self.ended(),
    {
        self.ended
    }

    /// One step of the stream; `shutdown` says whether the server has asked
    /// this connection to stop.
    pub fn poll(&mut self, b: &Broadcaster, shutdown: bool) -> (item: StreamItem)
        requires
            b.wf(),
            old(self).cursor() <= b@.history.len(),
        ensures
            item.matches(stream_step(b@, old(self).cursor(), old(self).ended(), shutdown).0, b@),
            final(self).cursor() == stream_step(b@, old(self).cursor(), old(self).ended(), shutdown).1,
            final(self).ended() == stream_step(b@, old(self).cursor(), old(self).ended(), shutdown).2,
            final(self).cursor() <= b@.history.len(),
    {
        proof {
            b.lemma_view();
        }
        if self.ended || shutdown {
            self.ended = true;
            return StreamItem::End;
        }
        match b.recv(&mut self.rx) {
            RecvResult::Message(m) => StreamItem::Event(m),
            RecvResult::Empty => StreamItem::Pending,
            RecvResult::Closed => {
                self.ended = true;
                StreamItem::End
            },
            RecvResult::Lagged(_) => {
                match b.recv(&mut self.rx) {
                    RecvResult::Message(m) => StreamItem::Event(m),
                    RecvResult::Closed => {
                        self.ended = true;
                        StreamItem::End
                    },
                    _ => StreamItem::Pending,
                }
            },
        }
    }

    /// Ends the subscription when its connection goes away.
    pub fn finish(self, b: &mut Broadcaster)
        requires
            old(b).wf(),
        ensures
            final(b).wf(),
            final(b)@ == (BroadcasterView {
                receivers: if old(b)@.receivers > 0 {
                    (old(b)@.receivers - 1) as nat
                } else {
                    0
                },
                ..old(b)@
            }),
    {
        b.unsubscribe(self.rx);
    }
}

} // verus!
