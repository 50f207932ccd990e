//! The state of one connection: the session that the handshake
//! established, the requests that await a response, and the subscriptions.
//!
//! The reader of the connection hands every message it decodes to
//! `on_message` and does what the answer says. When the connection is lost
//! it calls `fail` once, which answers every pending request and ends every
//! subscription.

use crate::correlation::{
    is_pending, request_id, resolved_rest, resolved_slot, slot_index, was_issued, PendingTable,
};
use crate::error::Error;
use crate::handshake::Session;
use crate::protocol::{Encoding, ServerMessage};
use crate::subscription::{
    all_terminated, lemma_terminated_stream_ends, taken_times, Delivery, Stream,
    SubscriptionTable,
};
use vstd::prelude::*;

verus! {

/// What a connection holds, as plain values.
pub struct ConnectionModel<T> {
    pub alive: bool,
    pub pending: Seq<(Seq<char>, T)>,
    pub subscriptions: Seq<(Seq<char>, Stream)>,
}

/// What the reader is to do with a message.
pub enum Dispatch<T> {
    /// Hand the message to the caller that waits behind the slot.
    Reply(T, ServerMessage),
    /// Nothing: the change event was queued for its subscription.
    Queued,
    /// Nothing: no request or open subscription has the identifier of the
    /// message. This is no failure of the connection.
    Dropped,
}

/// The state of one connection. `T` is the slot through which a caller
/// that awaits a response is answered.
pub struct Connection<T> {
    session: Session,
    pending: PendingTable<T>,
    subscriptions: SubscriptionTable,
    alive: bool,
}

impl<T> Connection<T> {
    /// The connection as plain values.
    pub closed spec fn view(&self) -> ConnectionModel<T> {
        ConnectionModel {
            alive: self.alive,
            pending: self.pending@,
            subscriptions: self.subscriptions@,
        }
    }

    /// The session that the handshake established.
    pub closed spec fn session(&self) -> Session {
        self.session
    }

    /// What holds of every connection: the table of pending requests is in
    /// order, and a connection that was lost has no pending request.
    pub closed spec fn wf(&self) -> bool {
        &&& self.pending.wf()
        &&& !self.alive ==> self.pending@.len() == 0
    }

    /// The serial number that the next request gets.
    pub closed spec fn next_serial(&self) -> nat {
        self.pending.next_serial()
    }

    /// The connection that a handshake has just established.
    pub fn new(session: Session) -> (conn: Self)
        ensures
            conn.wf(),
            conn.session() == session,
            conn@.alive,
            conn@.pending == Seq::<(Seq<char>, T)>::empty(),
            conn@.subscriptions == Seq::<(Seq<char>, Stream)>::empty(),
            conn.next_serial() == 0,
    {
        Connection {
            session,
            pending: PendingTable::new(),
            subscriptions: SubscriptionTable::new(),
            alive: true,
        }
    }

    /// The identifier of the session.
    pub fn session_id(&self) -> (id: &uuid::Uuid)
        ensures
            *id == self.session().session_id,
    {
        &self.session.session_id
    }

    /// The encoding that the handshake fixed for the connection.
    pub fn encoding(&self) -> (encoding: Encoding)
        ensures
            encoding == self.session().encoding,
    {
        self.session.encoding
    }

    /// Whether the connection has not been lost.
    pub fn is_alive(&self) -> (alive: bool)
        ensures
            alive == self@.alive,
    {
        self.alive
    }

    /// The number of requests that await a response.
    pub fn pending_len(&self) -> (n: usize)
        ensures
            n == self@.pending.len(),
    {
        self.pending.len()
    }

    /// Registers a request that is about to be sent and gives it its
    /// identifier. On a connection that was lost the request fails at once
    /// with `ChannelClosed`, and the slot is handed back.
    pub fn begin_request(&mut self, slot: T) -> (r: Result<String, (Error, T)>)
        requires
            old(self).wf(),
        ensures
            final(self).wf(),
            final(self).session() == old(self).session(),
            final(self)@.alive == old(self)@.alive,
            final(self)@.subscriptions == old(self)@.subscriptions,
            !old(self)@.alive ==> (r matches Err((Error::ChannelClosed, back)) && back == slot
                && final(self)@ == old(self)@),
            old(self)@.alive && old(self).next_serial() < u64::MAX ==> (r matches Ok(id) && id@
                == request_id(old(self).next_serial()) && !is_pending(old(self)@.pending, id@)
                && final(self)@.pending == old(self)@.pending.push((id@, slot))
                && final(self).next_serial() == old(self).next_serial() + 1),
            !(old(self)@.alive && old(self).next_serial() < u64::MAX) ==> final(self).next_serial()
                == old(self).next_serial(),
            old(self)@.alive && old(self).next_serial() >= u64::MAX ==> (r matches Err(
                (Error::Connection(why), back),
            ) && why@ == "Request identifiers exhausted"@ && back == slot && final(self)@ == old(
                self,
            )@),
    {
        if !self.alive {
            return Err((Error::ChannelClosed, slot));
        }
        match self.pending.register(slot) {
            Ok(id) => Ok(id),
            Err(back) => Err(
                (Error::Connection(String::from_str("Request identifiers exhausted")), back),
            ),
        }
    }

    /// Registers a request that is sent under an identifier that was given
    /// out before and is free again: the request that cancels a
    /// subscription carries the identifier of the subscription. On a
    /// connection that was lost the request fails at once with
    /// `ChannelClosed`. An identifier that is pending, or that this
    /// connection never gave out, is refused with a `Protocol` error. On
    /// failure the slot is handed back.
    pub fn begin_request_as(&mut self, id: &str, slot: T) -> (r: Result<(), (Error, T)>)
        requires
            old(self).wf(),
        ensures
            final(self).wf(),
            final(self).session() == old(self).session(),
            final(self).next_serial() == old(self).next_serial(),
            final(self)@.alive == old(self)@.alive,
            final(self)@.subscriptions == old(self)@.subscriptions,
            !old(self)@.alive ==> (r matches Err((Error::ChannelClosed, back)) && back == slot
                && final(self)@ == old(self)@),
            old(self)@.alive && was_issued(id@, old(self).next_serial()) && !is_pending(
                old(self)@.pending,
                id@,
            ) ==> (r is Ok && final(self)@.pending == old(self)@.pending.push((id@, slot))),
            old(self)@.alive && !(was_issued(id@, old(self).next_serial()) && !is_pending(
                old(self)@.pending,
                id@,
            )) ==> (r matches Err((Error::Protocol(why), back)) && why@
                == "Request identifier is not free"@ && back == slot && final(self)@ == old(
                self,
            )@),
    {
        if !self.alive {
            return Err((Error::ChannelClosed, slot));
        }
        match self.pending.register_as(id, slot) {
            Ok(()) => Ok(()),
            Err(back) => Err(
                (Error::Protocol(String::from_str("Request identifier is not free")), back),
            ),
        }
    }

    /// Gives up the request with identifier `id`, as a caller does whose
    /// deadline has passed. A response that still arrives for it is dropped.
    pub fn abandon(&mut self, id: &str) -> (slot: Option<T>)
        requires
            old(self).wf(),
        ensures
            final(self).wf(),
            final(self).session() == old(self).session(),
            final(self).next_serial() == old(self).next_serial(),
            slot == resolved_slot(old(self)@.pending, id@),
            final(self)@ == (ConnectionModel {
                pending: resolved_rest(old(self)@.pending, id@),
                ..old(self)@
            }),
    {
        self.pending.cancel(id)
    }

    /// Decides what becomes of a message from the server.
    ///
    /// A `Change` goes to the queue of the subscription that it names and
    /// never touches the pending requests. Every other message resolves the
    /// pending request that has its identifier. A message that finds neither
    /// is dropped.
    pub fn on_message(&mut self, message: ServerMessage) -> (action: Dispatch<T>)
        requires
            old(self).wf(),
        ensures
            final(self).wf(),
            final(self).session() == old(self).session(),
            final(self).next_serial() == old(self).next_serial(),
            final(self)@.alive == old(self)@.alive,
            message matches ServerMessage::Change { id, change } ==> {
                &&& final(self)@.pending == old(self)@.pending
                &&& is_pending(old(self)@.subscriptions, id@) ==> final(self)@.subscriptions
                    == old(self)@.subscriptions.update(
                    slot_index(old(self)@.subscriptions, id@, 0),
                    (
                        id@,
                        old(self)@.subscriptions[slot_index(
                            old(self)@.subscriptions,
                            id@,
                            0,
                        )].1.pushed(change),
                    ),
                )
                &&& !is_pending(old(self)@.subscriptions, id@) ==> final(self)@.subscriptions
                    == old(self)@.subscriptions
                &&& action == (if is_pending(old(self)@.subscriptions, id@) && old(
                    self,
                )@.subscriptions[slot_index(old(self)@.subscriptions, id@, 0)].1.accepts() {
                    Dispatch::<T>::Queued
                } else {
                    Dispatch::<T>::Dropped
                })
            },
            !(message is Change) ==> {
                &&& final(self)@.subscriptions == old(self)@.subscriptions
                &&& final(self)@.pending == resolved_rest(old(self)@.pending, message.id()@)
                &&& action == (match resolved_slot(old(self)@.pending, message.id()@) {
                    Some(slot) => Dispatch::Reply(slot, message),
                    None => Dispatch::Dropped,
                })
            },
    {
        match message {
            ServerMessage::Change { id, change } => {
                if self.subscriptions.push(id.as_str(), change) {
                    Dispatch::Queued
                } else {
                    Dispatch::Dropped
                }
            },
            other => {
                let slot = self.pending.resolve(other.id().as_str());
                match slot {
                    Some(slot) => Dispatch::Reply(slot, other),
                    None => Dispatch::Dropped,
                }
            },
        }
    }

    /// Opens the subscription that the server acknowledged under `id`.
    pub fn open_subscription(&mut self, id: &str) -> (opened: bool)
        requires
            old(self).wf(),
        ensures
            final(self).wf(),
            final(self).session() == old(self).session(),
            final(self).next_serial() == old(self).next_serial(),
            opened == (old(self)@.alive && !is_pending(old(self)@.subscriptions, id@)),
            opened ==> final(self)@ == (ConnectionModel {
                subscriptions: old(self)@.subscriptions.push((id@, Stream::fresh())),
                ..old(self)@
            }),
            !opened ==> final(self)@ == old(self)@,
    {
        if !self.alive {
            return false;
        }
        self.subscriptions.open(id)
    }

    /// Takes the oldest event of the subscription with identifier `id`.
    pub fn next_event(&mut self, id: &str) -> (delivery: Delivery)
        requires
            old(self).wf(),
        ensures
            final(self).wf(),
            final(self).session() == old(self).session(),
            final(self).next_serial() == old(self).next_serial(),
            final(self)@.alive == old(self)@.alive,
            final(self)@.pending == old(self)@.pending,
            is_pending(old(self)@.subscriptions, id@) ==> delivery == old(
                self,
            )@.subscriptions[slot_index(old(self)@.subscriptions, id@, 0)].1.head()
                && final(self)@.subscriptions == old(self)@.subscriptions.update(
                slot_index(old(self)@.subscriptions, id@, 0),
                (
                    id@,
                    old(self)@.subscriptions[slot_index(old(self)@.subscriptions, id@, 0)].1.taken(),
                ),
            ),
            !is_pending(old(self)@.subscriptions, id@) ==> delivery == Delivery::Ended
                && final(self)@.subscriptions == old(self)@.subscriptions,
    {
        self.subscriptions.next(id)
    }

    /// Terminates the subscription with identifier `id`, once the server
    /// has acknowledged that it is cancelled.
    pub fn close_subscription(&mut self, id: &str) -> (found: bool)
        requires
            old(self).wf(),
        ensures
            final(self).wf(),
            final(self).session() == old(self).session(),
            final(self).next_serial() == old(self).next_serial(),
            final(self)@.alive == old(self)@.alive,
            final(self)@.pending == old(self)@.pending,
            found == is_pending(old(self)@.subscriptions, id@),
            found ==> final(self)@.subscriptions == old(self)@.subscriptions.update(
                slot_index(old(self)@.subscriptions, id@, 0),
                (
                    id@,
                    old(self)@.subscriptions[slot_index(
                        old(self)@.subscriptions,
                        id@,
                        0,
                    )].1.terminated(),
                ),
            ),
            !found ==> final(self)@.subscriptions == old(self)@.subscriptions,
    {
        self.subscriptions.terminate(id)
    }

    /// Lets go of the subscription with identifier `id`, whose consumer has
    /// dropped its handle. The server is not told.
    pub fn release_subscription(&mut self, id: &str) -> (found: bool)
        requires
            old(self).wf(),
        ensures
            final(self).wf(),
            final(self).session() == old(self).session(),
            final(self).next_serial() == old(self).next_serial(),
            final(self)@.alive == old(self)@.alive,
            final(self)@.pending == old(self)@.pending,
            found == is_pending(old(self)@.subscriptions, id@),
            found ==> final(self)@.subscriptions == old(self)@.subscriptions.remove(
                slot_index(old(self)@.subscriptions, id@, 0),
            ),
            !found ==> final(self)@.subscriptions == old(self)@.subscriptions,
    {
        self.subscriptions.release(id)
    }

    /// Tears the connection down. The slots of all pending requests are
    /// handed over in the order of registration, for the caller to answer
    /// each with `ChannelClosed`; every subscription is terminated. A second
    /// call finds nothing left to do.
    pub fn fail(&mut self) -> (slots: Vec<T>)
        requires
            old(self).wf(),
        ensures
            final(self).wf(),
            final(self).session() == old(self).session(),
            final(self).next_serial() == old(self).next_serial(),
            final(self)@ == failed(old(self)@),
            slots@ == orphaned(old(self)@),
    {
        self.subscriptions.close_all();
        let slots = self.pending.drain();
        self.alive = false;
        slots
    }
}

/// The connection after it was lost: no request is pending and every
/// subscription is terminated.
pub open spec fn failed<T>(m: ConnectionModel<T>) -> ConnectionModel<T> {
    ConnectionModel {
        alive: false,
        pending: Seq::empty(),
        subscriptions: all_terminated(m.subscriptions),
    }
}

/// The slots of the requests that were pending when the connection was
/// lost, in the order of registration.
pub open spec fn orphaned<T>(m: ConnectionModel<T>) -> Seq<T> {
    m.pending.map_values(|e: (Seq<char>, T)| e.1)
}

/// When the connection is lost, nothing is left suspended. Every request
/// that was pending has its slot handed over, in the order of
/// registration, and none stays pending. Every subscription keeps its
/// identifier and what was queued, is terminated, and gives its consumer
/// the end of the stream once the queued events are taken.
pub proof fn lemma_loss_leaves_nothing_suspended<T>(m: ConnectionModel<T>)
    ensures
        !failed(m).alive,
        failed(m).pending.len() == 0,
        orphaned(m).len() == m.pending.len(),
        forall|i: int| 0 <= i < m.pending.len() ==> orphaned(m)[i] == (#[trigger] m.pending[i]).1,
        failed(m).subscriptions.len() == m.subscriptions.len(),
        forall|i: int|
            0 <= i < m.subscriptions.len() ==> {
                let before = (#[trigger] m.subscriptions[i]);
                let after = failed(m).subscriptions[i];
                &&& after.0 == before.0
                &&& after.1.queue == before.1.queue
                &&& !after.1.open
                &&& taken_times(after.1, after.1.queue.len()).head() == Delivery::Ended
            },
{
    assert forall|i: int| 0 <= i < m.subscriptions.len() implies {
        let before = (#[trigger] m.subscriptions[i]);
        let after = failed(m).subscriptions[i];
        &&& after.0 == before.0
        &&& after.1.queue == before.1.queue
        &&& !after.1.open
        &&& taken_times(after.1, after.1.queue.len()).head() == Delivery::Ended
    } by {
        let after = failed(m).subscriptions[i];
        lemma_terminated_stream_ends(after.1, after.1.queue.len());
    }
}

/// A connection is lost once: tearing it down again finds no request to
/// answer and changes nothing.
pub proof fn lemma_loss_is_final<T>(m: ConnectionModel<T>)
    ensures
        orphaned(failed(m)) == Seq::<T>::empty(),
        failed(failed(m)) == failed(m),
{
    assert(orphaned(failed(m)) =~= Seq::<T>::empty());
    assert(all_terminated(all_terminated(m.subscriptions)) =~= all_terminated(m.subscriptions));
}

} // verus!
