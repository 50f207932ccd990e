//! Subscriptions: for each one a queue of change events, filled by the
//! reader of the connection and emptied by the consumer.
//!
//! A queue hands its events out in the order in which they came. Once a
//! subscription is terminated nothing more is queued, but what is queued
//! can still be taken.

use crate::correlation::{is_pending, slot_index};
use crate::protocol::ChangeEvent;
use std::collections::VecDeque;
use vstd::prelude::*;

verus! {

/// The state of one subscription: the events not yet taken, oldest first,
/// and whether more may come.
pub struct Stream {
    pub queue: Seq<ChangeEvent>,
    pub open: bool,
}

/// What a consumer gets when it asks for the next event.
#[derive(Debug)]
pub enum Delivery {
    /// The oldest event that was not yet taken.
    Event(ChangeEvent),
    /// Nothing is queued, but more may come.
    Pending,
    /// Nothing is queued and nothing will come.
    Ended,
}

impl Stream {
    /// A subscription that was just acknowledged.
    pub open spec fn fresh() -> Stream {
        Stream { queue: Seq::empty(), open: true }
    }

    /// Whether an event that arrives now is queued.
    pub open spec fn accepts(self) -> bool {
        self.open
    }

    /// The state after `event` arrived: queued behind the others while the
    /// subscription is open, dropped once it is terminated.
    pub open spec fn pushed(self, event: ChangeEvent) -> Stream {
        if self.open {
            Stream { queue: self.queue.push(event), open: true }
        } else {
            self
        }
    }

    /// What the consumer gets next.
    pub open spec fn head(self) -> Delivery {
        if self.queue.len() > 0 {
            Delivery::Event(self.queue[0])
        } else if self.open {
            Delivery::Pending
        } else {
            Delivery::Ended
        }
    }

    /// The state after the consumer took what `head` gives.
    pub open spec fn taken(self) -> Stream {
        if self.queue.len() > 0 {
            Stream { queue: self.queue.drop_first(), open: self.open }
        } else {
            self
        }
    }

    /// The state after the subscription was terminated.
    pub open spec fn terminated(self) -> Stream {
        Stream { queue: self.queue, open: false }
    }
}

/// One subscription as the client holds it.
pub struct Subscription {
    id: String,
    queue: VecDeque<ChangeEvent>,
    open: bool,
}

impl Subscription {
    /// The identifier under which the server sends the changes.
    pub closed spec fn id_text(&self) -> Seq<char> {
        self.id@
    }

    /// The queue and the liveness of the subscription.
    pub closed spec fn view(&self) -> Stream {
        Stream { queue: self.queue@, open: self.open }
    }

    /// The subscription that the server acknowledged under `id`.
    pub fn new(id: &str) -> (sub: Self)
        ensures
            sub.id_text() == id@,
            sub@ == Stream::fresh(),
    {
        Subscription { id: String::from_str(id), queue: VecDeque::new(), open: true }
    }

    /// The identifier under which the server sends the changes.
    pub fn id(&self) -> (id: &String)
        ensures
            id@ == self.id_text(),
    {
        &self.id
    }

    /// Whether more events may come.
    pub fn is_open(&self) -> (r: bool)
        ensures
            r == self@.open,
    {
        self.open
    }

    /// The number of events that wait to be taken.
    pub fn queued(&self) -> (n: usize)
        ensures
            n == self@.queue.len(),
    {
        self.queue.len()
    }

    /// Queues `event` behind the others. A terminated subscription queues
    /// nothing; the result says whether the event was queued.
    pub fn push(&mut self, event: ChangeEvent) -> (queued: bool)
        ensures
            queued == old(self)@.accepts(),
            final(self)@ == old(self)@.pushed(event),
            final(self).id_text() == old(self).id_text(),
    {
        if self.open {
            self.queue.push_back(event);
            true
        } else {
            false
        }
    }

    /// Takes the oldest event. Where none is queued, says whether more may
    /// come.
    pub fn next(&mut self) -> (delivery: Delivery)
        ensures
            delivery == old(self)@.head(),
            final(self)@ == old(self)@.taken(),
            final(self).id_text() == old(self).id_text(),
    {
        match self.queue.pop_front() {
            Some(event) => {
                assert(self.queue@ =~= old(self).queue@.drop_first());
                Delivery::Event(event)
            },
            None => if self.open {
                Delivery::Pending
            } else {
                Delivery::Ended
            },
        }
    }

    /// Terminates the subscription: nothing more is queued. What is queued
    /// stays for the consumer.
    pub fn terminate(&mut self)
        ensures
            final(self)@ == old(self)@.terminated(),
            final(self).id_text() == old(self).id_text(),
    {
        self.open = false;
    }
}

/// What can happen to a subscription: an event arrives, the consumer asks
/// for the next event, or the subscription is terminated.
pub enum StreamOp {
    Push(ChangeEvent),
    Next,
    Terminate,
}

/// A subscription together with its history: the events that were queued
/// when they arrived, and the events that the consumer has seen.
pub struct Run {
    pub stream: Stream,
    pub accepted: Seq<ChangeEvent>,
    pub seen: Seq<ChangeEvent>,
}

/// The history after one more step.
pub open spec fn step(r: Run, op: StreamOp) -> Run {
    match op {
        StreamOp::Push(event) => Run {
            stream: r.stream.pushed(event),
            accepted: if r.stream.accepts() {
                r.accepted.push(event)
            } else {
                r.accepted
            },
            seen: r.seen,
        },
        StreamOp::Next => Run {
            stream: r.stream.taken(),
            accepted: r.accepted,
            seen: match r.stream.head() {
                Delivery::Event(event) => r.seen.push(event),
                _ => r.seen,
            },
        },
        StreamOp::Terminate => Run {
            stream: r.stream.terminated(),
            accepted: r.accepted,
            seen: r.seen,
        },
    }
}

/// The history of a fresh subscription after the steps `ops`.
pub open spec fn run(ops: Seq<StreamOp>) -> Run
    decreases ops.len(),
{
    if ops.len() == 0 {
        Run { stream: Stream::fresh(), accepted: Seq::empty(), seen: Seq::empty() }
    } else {
        step(run(ops.drop_last()), ops.last())
    }
}

/// Whatever happens to a subscription, and in whatever order, the consumer
/// sees the events in the order in which they arrived: what it has seen,
/// followed by what is still queued, is what was queued on arrival.
pub proof fn lemma_events_in_order(ops: Seq<StreamOp>)
    ensures
        run(ops).seen + run(ops).stream.queue == run(ops).accepted,
        run(ops).seen.is_prefix_of(run(ops).accepted),
    decreases ops.len(),
{
    if ops.len() == 0 {
        assert(run(ops).seen + run(ops).stream.queue =~= run(ops).accepted);
    } else {
        let before = run(ops.drop_last());
        lemma_events_in_order(ops.drop_last());
        let after = run(ops);
        assert(after == step(before, ops.last()));
        assert(after.seen + after.stream.queue =~= after.accepted);
    }
    assert(run(ops).seen.is_prefix_of(run(ops).accepted)) by {
        let r = run(ops);
        assert(r.seen =~= (r.seen + r.stream.queue).subrange(0, r.seen.len() as int));
    }
}

/// The state after the consumer asked `n` times.
pub open spec fn taken_times(s: Stream, n: nat) -> Stream
    decreases n,
{
    if n == 0 {
        s
    } else {
        taken_times(s, (n - 1) as nat).taken()
    }
}

/// A terminated subscription gives the consumer each queued event, oldest
/// first, and after the last of them the end of the stream, for good.
pub proof fn lemma_terminated_stream_ends(s: Stream, n: nat)
    requires
        !s.open,
    ensures
        n < s.queue.len() ==> taken_times(s, n).head() == Delivery::Event(s.queue[n as int]),
        n >= s.queue.len() ==> taken_times(s, n).head() == Delivery::Ended,
        !taken_times(s, n).open,
        taken_times(s, n).queue == s.queue.skip(if n < s.queue.len() {
            n as int
        } else {
            s.queue.len() as int
        }),
    decreases n,
{
    if n == 0 {
        assert(s.queue.skip(0) =~= s.queue);
    } else {
        lemma_terminated_stream_ends(s, (n - 1) as nat);
        let before = taken_times(s, (n - 1) as nat);
        let after = taken_times(s, n);
        assert(after == before.taken());
        if n - 1 < s.queue.len() {
            assert(before.queue.drop_first() =~= s.queue.skip(n as int));
        }
    }
}

/// An event that arrives after the subscription was terminated is never
/// queued: the state stays as it is.
pub proof fn lemma_terminated_stream_accepts_nothing(s: Stream, event: ChangeEvent)
    ensures
        s.terminated().pushed(event) == s.terminated(),
        !s.terminated().accepts(),
{
}

/// Every state terminated.
pub open spec fn all_terminated(m: Seq<(Seq<char>, Stream)>) -> Seq<(Seq<char>, Stream)> {
    m.map_values(|e: (Seq<char>, Stream)| (e.0, e.1.terminated()))
}

/// The subscriptions of one connection, each under its identifier.
pub struct SubscriptionTable {
    subs: Vec<Subscription>,
}

impl SubscriptionTable {
    /// The subscriptions in the order in which they were opened: the
    /// identifier and the state of each.
    pub closed spec fn view(&self) -> Seq<(Seq<char>, Stream)> {
        Seq::new(self.subs@.len(), |i: int| (self.subs@[i].id_text(), self.subs@[i]@))
    }

    /// A table without subscriptions.
    pub fn new() -> (table: Self)
        ensures
            table@ == Seq::<(Seq<char>, Stream)>::empty(),
    {
        let table = SubscriptionTable { subs: Vec::new() };
        assert(table@ =~= Seq::<(Seq<char>, Stream)>::empty());
        table
    }

    /// The number of subscriptions.
    pub fn len(&self) -> (n: usize)
        ensures
            n == self@.len(),
    {
        self.subs.len()
    }

    /// The position of the subscription with identifier `id`, or the
    /// number of subscriptions where there is none.
    fn find(&self, id: &str) -> (k: usize)
        ensures
            k == slot_index(self@, id@, 0),
            k <= self.subs@.len(),
            k < self.subs@.len() ==> self.subs@[k as int].id_text() == id@,
    {
        let wanted = String::from_str(id);
        let mut i: usize = 0;
        while i < self.subs.len()
            invariant
                i <= self.subs@.len(),
                wanted@ == id@,
                self@.len() == self.subs@.len(),
                slot_index(self@, id@, 0) == slot_index(self@, id@, i as int),
            decreases self.subs.len() - i,
        {
            assert(self@[i as int].0 == self.subs@[i as int].id_text());
            if *self.subs[i].id() == wanted {
                return i;
            }
            i += 1;
        }
        i
    }

    /// Whether a subscription with identifier `id` is held.
    pub fn contains(&self, id: &str) -> (r: bool)
        ensures
            r == is_pending(self@, id@),
    {
        self.find(id) < self.subs.len()
    }

    /// Opens the subscription that the server acknowledged under `id`.
    /// Where one is held under that identifier already, nothing changes and
    /// the result is `false`.
    pub fn open(&mut self, id: &str) -> (opened: bool)
        ensures
            opened == !is_pending(old(self)@, id@),
            opened ==> final(self)@ == old(self)@.push((id@, Stream::fresh())),
            !opened ==> final(self)@ == old(self)@,
    {
        if self.find(id) < self.subs.len() {
            return false;
        }
        self.subs.push(Subscription::new(id));
        assert(self@ =~= old(self)@.push((id@, Stream::fresh())));
        true
    }

    /// Queues `event` for the subscription with identifier `id`. The result
    /// says whether it was queued: not where no such subscription is held,
    /// and not where it is terminated.
    pub fn push(&mut self, id: &str, event: ChangeEvent) -> (queued: bool)
        ensures
            queued == (is_pending(old(self)@, id@) && old(self)@[slot_index(
                old(self)@,
                id@,
                0,
            )].1.accepts()),
            is_pending(old(self)@, id@) ==> final(self)@ == old(self)@.update(
                slot_index(old(self)@, id@, 0),
                (id@, old(self)@[slot_index(old(self)@, id@, 0)].1.pushed(event)),
            ),
            !is_pending(old(self)@, id@) ==> final(self)@ == old(self)@,
    {
        let k = self.find(id);
        if k >= self.subs.len() {
            return false;
        }
        let queued = self.subs[k].push(event);
        assert(self@ =~= old(self)@.update(
            k as int,
            (id@, old(self)@[k as int].1.pushed(event)),
        ));
        queued
    }

    /// Takes the oldest event of the subscription with identifier `id`. A
    /// subscription that is not held has ended.
    pub fn next(&mut self, id: &str) -> (delivery: Delivery)
        ensures
            is_pending(old(self)@, id@) ==> delivery == old(self)@[slot_index(
                old(self)@,
                id@,
                0,
            )].1.head() && final(self)@ == old(self)@.update(
                slot_index(old(self)@, id@, 0),
                (id@, old(self)@[slot_index(old(self)@, id@, 0)].1.taken()),
            ),
            !is_pending(old(self)@, id@) ==> delivery == Delivery::Ended && final(self)@ == old(
                self,
            )@,
    {
        let k = self.find(id);
        if k >= self.subs.len() {
            return Delivery::Ended;
        }
        let delivery = self.subs[k].next();
        assert(self@ =~= old(self)@.update(k as int, (id@, old(self)@[k as int].1.taken())));
        delivery
    }

    /// Terminates the subscription with identifier `id`. The result says
    /// whether such a subscription is held.
    pub fn terminate(&mut self, id: &str) -> (found: bool)
        ensures
            found == is_pending(old(self)@, id@),
            found ==> final(self)@ == old(self)@.update(
                slot_index(old(self)@, id@, 0),
                (id@, old(self)@[slot_index(old(self)@, id@, 0)].1.terminated()),
            ),
            !found ==> final(self)@ == old(self)@,
    {
        let k = self.find(id);
        if k >= self.subs.len() {
            return false;
        }
        self.subs[k].terminate();
        assert(self@ =~= old(self)@.update(
            k as int,
            (id@, old(self)@[k as int].1.terminated()),
        ));
        true
    }

    /// Lets go of the subscription with identifier `id`, as when its
    /// consumer has dropped its handle: the queue is released and events
    /// that still arrive under the identifier are dropped. The server is
    /// not told; a caller that wants it to stop sends an unsubscribe first.
    pub fn release(&mut self, id: &str) -> (found: bool)
        ensures
            found == is_pending(old(self)@, id@),
            found ==> final(self)@ == old(self)@.remove(slot_index(old(self)@, id@, 0)),
            !found ==> final(self)@ == old(self)@,
    {
        let k = self.find(id);
        if k >= self.subs.len() {
            return false;
        }
        let _ = self.subs.remove(k);
        assert(self@ =~= old(self)@.remove(k as int));
        true
    }

    /// Terminates every subscription, as when the connection is lost.
    pub fn close_all(&mut self)
        ensures
            final(self)@ == all_terminated(old(self)@),
    {
        let mut i: usize = 0;
        while i < self.subs.len()
            invariant
                i <= self.subs@.len(),
                self@.len() == old(self)@.len(),
                forall|j: int| 0 <= j < i ==> (#[trigger] self@[j]) == all_terminated(old(self)@)[j],
                forall|j: int| i <= j < self@.len() ==> (#[trigger] self@[j]) == old(self)@[j],
            decreases self.subs.len() - i,
        {
            let ghost before = self@;
            self.subs[i].terminate();
            assert(self@ =~= before.update(i as int, (before[i as int].0, before[i as int].1.terminated())));
            i += 1;
        }
        assert(self@ =~= all_terminated(old(self)@));
    }
}

} // verus!
