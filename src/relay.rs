use vstd::prelude::*;
use crate::broadcast::{publish_step, Broadcaster, BroadcasterView, DEFAULT_CAPACITY};
use crate::message::Message;
use crate::stream::Subscription;

verus! {

/// The shared broadcaster that every handler of the relay is given.
pub fn rocket() -> (queue: Broadcaster)
    ensures
        queue.wf(),
        queue@ == (BroadcasterView {
            capacity: DEFAULT_CAPACITY as nat,
            history: Seq::empty(),
            retained: 0,
            receivers: 0,
            closed: false,
        }),
{
    Broadcaster::new(DEFAULT_CAPACITY)
}

/// Accepts one validated message and hands it to the broadcaster. Having no
/// listener is no failure: the message is then simply dropped.
pub fn post(form: Message, queue: &mut Broadcaster)
    requires
        old(queue).wf(),
        form.wf(),
        old(queue)@.history.len() < u64::MAX,
    ensures
        final(queue).wf(),
        final(queue)@ == publish_step(old(queue)@, form@),
{
    let _delivered = queue.publish(form);
}

/// Opens the event stream of one new connection.
pub fn events(queue: &mut Broadcaster) -> (s: Subscription)
    requires
        old(queue).wf(),
        old(queue)@.receivers < u64::MAX,
    ensures
        final(queue).wf(),
        final(queue)@ == (BroadcasterView { receivers: old(queue)@.receivers + 1, ..old(queue)@ }),
        s.cursor() == old(queue)@.history.len(),
        !s.ended(),
{
    Subscription::open(queue)
}

} // verus!
