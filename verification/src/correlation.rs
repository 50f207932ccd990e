//! The table of requests that await their responses.
//!
//! Every request gets an identifier of its own and a slot through which
//! its caller is answered. The table keeps the slots in the order in which
//! the requests were registered and hands each out once: to the response
//! that carries its identifier, to the caller that gives up, or to the
//! teardown of the connection.

use crate::text::{
    decimal_chars, decimal_string, lemma_decimal_bytes_digits, lemma_decimal_chars_bytes,
    lemma_decimal_chars_injective, lemma_decimal_round_trip, parse_unsigned, parsed_unsigned,
};
use vstd::utf8::encode_utf8;
use vstd::prelude::*;

verus! {

/// The identifier of the request with the given serial number.
pub open spec fn request_id(serial: nat) -> Seq<char> {
    decimal_chars(serial)
}

/// The position of the first entry of `m` at or after `from` that belongs
/// to `id`, or the length of `m` where there is none.
pub open spec fn slot_index<T>(m: Seq<(Seq<char>, T)>, id: Seq<char>, from: int) -> int
    decreases m.len() - from,
{
    if from < 0 || from >= m.len() {
        m.len() as int
    } else if m[from].0 == id {
        from
    } else {
        slot_index(m, id, from + 1)
    }
}

/// Whether `id` is an identifier that a table has given out before it
/// reached the serial number `next`.
pub open spec fn was_issued(id: Seq<char>, next: nat) -> bool {
    exists|n: nat| n < next && id == #[trigger] request_id(n)
}

/// The identifier of a request stays given out: it can stand for a later
/// request once it is free again.
pub proof fn lemma_request_id_was_issued(serial: nat, next: nat)
    requires
        serial < next,
    ensures
        was_issued(request_id(serial), next),
{
}

/// An identifier that was given out reads as its serial number.
proof fn lemma_issued_parses(id: Seq<char>, n: nat)
    requires
        id == request_id(n),
        n <= u64::MAX,
    ensures
        parsed_unsigned(encode_utf8(id)) == Some(n as u64),
{
    lemma_decimal_chars_bytes(n);
    lemma_decimal_bytes_digits(n);
    lemma_decimal_round_trip(n);
}

/// Whether a request with identifier `id` is pending in `m`.
pub open spec fn is_pending<T>(m: Seq<(Seq<char>, T)>, id: Seq<char>) -> bool {
    slot_index(m, id, 0) < m.len()
}

/// Whether no identifier stands twice in `m`.
pub open spec fn distinct_ids<T>(m: Seq<(Seq<char>, T)>) -> bool {
    forall|i: int, j: int| 0 <= i < j < m.len() ==> (#[trigger] m[i]).0 != (#[trigger] m[j]).0
}

/// What resolving `id` hands out: the slot that was registered under it,
/// or nothing where no such request is pending.
pub open spec fn resolved_slot<T>(m: Seq<(Seq<char>, T)>, id: Seq<char>) -> Option<T> {
    if is_pending(m, id) {
        Some(m[slot_index(m, id, 0)].1)
    } else {
        None
    }
}

/// What resolving `id` leaves pending: everything but the request with
/// that identifier, in the same order.
pub open spec fn resolved_rest<T>(m: Seq<(Seq<char>, T)>, id: Seq<char>) -> Seq<(Seq<char>, T)> {
    if is_pending(m, id) {
        m.remove(slot_index(m, id, 0))
    } else {
        m
    }
}

/// Where `slot_index` points.
pub proof fn lemma_slot_index<T>(m: Seq<(Seq<char>, T)>, id: Seq<char>, from: int)
    requires
        0 <= from <= m.len(),
    ensures
        from <= slot_index(m, id, from) <= m.len(),
        slot_index(m, id, from) < m.len() ==> m[slot_index(m, id, from)].0 == id,
        forall|i: int| from <= i < slot_index(m, id, from) ==> (#[trigger] m[i]).0 != id,
    decreases m.len() - from,
{
    if from < m.len() && m[from].0 != id {
        lemma_slot_index(m, id, from + 1);
    }
}

/// One request that awaits its response.
struct Pending<T> {
    serial: u64,
    id: String,
    slot: T,
}

/// The requests that await their responses, in the order in which they
/// were registered. `T` is the slot through which a caller is answered.
pub struct PendingTable<T> {
    entries: Vec<Pending<T>>,
    next: u64,
}

impl<T> PendingTable<T> {
    /// The pending requests in the order of their registration: the
    /// identifier and the slot of each.
    pub closed spec fn view(&self) -> Seq<(Seq<char>, T)> {
        Seq::new(self.entries@.len(), |i: int| (self.entries@[i].id@, self.entries@[i].slot))
    }

    /// The serial number that the next request gets.
    pub closed spec fn next_serial(&self) -> nat {
        self.next as nat
    }

    /// What holds of every table: each identifier is the text of a serial
    /// number that was given out, and no serial number is pending twice.
    pub closed spec fn wf(&self) -> bool {
        &&& forall|i: int|
            0 <= i < self.entries@.len() ==> (#[trigger] self.entries@[i]).serial < self.next
                && self.entries@[i].id@ == request_id(self.entries@[i].serial as nat)
        &&& forall|i: int, j: int|
            0 <= i < j < self.entries@.len() ==> (#[trigger] self.entries@[i]).serial != (
            #[trigger] self.entries@[j]).serial
    }

    /// In a table, no identifier is pending twice, and the identifier that
    /// comes next is not pending.
    pub proof fn lemma_ids(&self)
        requires
            self.wf(),
        ensures
            distinct_ids(self@),
            !is_pending(self@, request_id(self.next_serial())),
    {
        let m = self@;
        assert forall|i: int, j: int| 0 <= i < j < m.len() implies (#[trigger] m[i]).0 != (
        #[trigger] m[j]).0 by {
            let a = self.entries@[i];
            let b = self.entries@[j];
            if a.id@ == b.id@ {
                lemma_decimal_chars_injective(a.serial as nat, b.serial as nat);
            }
        }
        let id = request_id(self.next as nat);
        lemma_slot_index(m, id, 0);
        let k = slot_index(m, id, 0);
        if k < m.len() {
            let e = self.entries@[k];
            lemma_decimal_chars_injective(e.serial as nat, self.next as nat);
        }
    }

    /// A table with no pending request.
    pub fn new() -> (table: Self)
        ensures
            table.wf(),
            table@ == Seq::<(Seq<char>, T)>::empty(),
            table.next_serial() == 0,
    {
        let table = PendingTable { entries: Vec::new(), next: 0 };
        assert(table@ =~= Seq::<(Seq<char>, T)>::empty());
        table
    }

    /// The number of pending requests.
    pub fn len(&self) -> (n: usize)
        ensures
            n == self@.len(),
    {
        self.entries.len()
    }

    /// Whether no request is pending.
    pub fn is_empty(&self) -> (r: bool)
        ensures
            r == (self@.len() == 0),
    {
        self.entries.len() == 0
    }

    /// The position of the request with identifier `id`, or the number of
    /// pending requests where there is none.
    fn find(&self, id: &str) -> (k: usize)
        ensures
            k == slot_index(self@, id@, 0),
            k <= self.entries@.len(),
    {
        let wanted = String::from_str(id);
        let mut i: usize = 0;
        while i < self.entries.len()
            invariant
                i <= self.entries@.len(),
                wanted@ == id@,
                self@.len() == self.entries@.len(),
                slot_index(self@, id@, 0) == slot_index(self@, id@, i as int),
            decreases self.entries.len() - i,
        {
            assert(self@[i as int].0 == self.entries@[i as int].id@);
            if self.entries[i].id == wanted {
                return i;
            }
            i += 1;
        }
        i
    }

    /// Whether a request with identifier `id` is pending.
    pub fn contains(&self, id: &str) -> (r: bool)
        ensures
            r == is_pending(self@, id@),
    {
        self.find(id) < self.entries.len()
    }

    /// Registers a request with `slot` and gives it an identifier that no
    /// pending request has. Where the serial numbers have run out, nothing
    /// is registered and the slot is handed back.
    pub fn register(&mut self, slot: T) -> (r: Result<String, T>)
        requires
            old(self).wf(),
        ensures
            final(self).wf(),
            old(self).next_serial() < u64::MAX ==> (r matches Ok(id) && id@ == request_id(
                old(self).next_serial(),
            ) && !is_pending(old(self)@, id@) && final(self)@ == old(self)@.push((id@, slot))
                && final(self).next_serial() == old(self).next_serial() + 1),
            old(self).next_serial() >= u64::MAX ==> (r == Err::<String, T>(slot) && final(self)@
                == old(self)@ && final(self).next_serial() == old(self).next_serial()),
    {
        proof {
            self.lemma_ids();
        }
        if self.next == u64::MAX {
            return Err(slot);
        }
        let serial = self.next;
        let id = decimal_string(serial);
        self.next = serial + 1;
        self.entries.push(Pending { serial, id: id.clone(), slot });
        assert(self@ =~= old(self)@.push((id@, slot)));
        Ok(id)
    }

    /// Registers a request under an identifier that this table gave out
    /// before and that is free again, as for the request that cancels a
    /// subscription under the subscription's own identifier. Any other
    /// identifier is refused, and the slot is handed back.
    pub fn register_as(&mut self, id: &str, slot: T) -> (r: Result<(), T>)
        requires
            old(self).wf(),
        ensures
            final(self).wf(),
            final(self).next_serial() == old(self).next_serial(),
            was_issued(id@, old(self).next_serial()) && !is_pending(old(self)@, id@) ==> r is Ok
                && final(self)@ == old(self)@.push((id@, slot)),
            !(was_issued(id@, old(self).next_serial()) && !is_pending(old(self)@, id@)) ==> r
                == Err::<(), T>(slot) && final(self)@ == old(self)@,
    {
        let ghost issued = was_issued(id@, self.next as nat);
        let ghost witness = choose|n: nat| n < self.next && id@ == #[trigger] request_id(n);
        proof {
            if issued {
                lemma_issued_parses(id@, witness);
            }
        }
        let serial = match parse_unsigned(id.as_bytes()) {
            Some(serial) => serial,
            None => {
                return Err(slot);
            },
        };
        if serial >= self.next {
            return Err(slot);
        }
        let text = decimal_string(serial);
        if text != String::from_str(id) {
            return Err(slot);
        }
        assert(id@ == request_id(serial as nat));
        let k = self.find(id);
        if k < self.entries.len() {
            return Err(slot);
        }
        proof {
            lemma_slot_index(self@, id@, 0);
            assert forall|i: int| 0 <= i < self.entries@.len() implies (
            #[trigger] self.entries@[i]).serial != serial by {
                assert(self@[i].0 == self.entries@[i].id@);
            }
        }
        self.entries.push(Pending { serial, id: text, slot });
        assert(self@ =~= old(self)@.push((id@, slot)));
        Ok(())
    }

    /// Takes out the request with identifier `id` and hands its slot over.
    /// Where no such request is pending, nothing changes: a response that
    /// comes after its request was given up finds no slot.
    pub fn resolve(&mut self, id: &str) -> (slot: Option<T>)
        requires
            old(self).wf(),
        ensures
            final(self).wf(),
            slot == resolved_slot(old(self)@, id@),
            final(self)@ == resolved_rest(old(self)@, id@),
            final(self).next_serial() == old(self).next_serial(),
            !is_pending(final(self)@, id@),
    {
        let k = self.find(id);
        proof {
            self.lemma_ids();
            lemma_slot_index(self@, id@, 0);
            lemma_resolved_once(self@, id@);
        }
        if k < self.entries.len() {
            let entry = self.entries.remove(k);
            assert(self@ =~= old(self)@.remove(k as int));
            Some(entry.slot)
        } else {
            None
        }
    }

    /// Gives up the request with identifier `id`, as a caller does whose
    /// deadline has passed: its slot is handed back and the identifier is
    /// no longer pending.
    pub fn cancel(&mut self, id: &str) -> (slot: Option<T>)
        requires
            old(self).wf(),
        ensures
            final(self).wf(),
            slot == resolved_slot(old(self)@, id@),
            final(self)@ == resolved_rest(old(self)@, id@),
            final(self).next_serial() == old(self).next_serial(),
            !is_pending(final(self)@, id@),
    {
        self.resolve(id)
    }

    /// Takes out every pending request and hands the slots over in the
    /// order in which the requests were registered.
    pub fn drain(&mut self) -> (slots: Vec<T>)
        requires
            old(self).wf(),
        ensures
            final(self).wf(),
            final(self)@ == Seq::<(Seq<char>, T)>::empty(),
            final(self).next_serial() == old(self).next_serial(),
            slots@ == old(self)@.map_values(|e: (Seq<char>, T)| e.1),
    {
        let mut slots: Vec<T> = Vec::new();
        let ghost all = self@;
        while self.entries.len() > 0
            invariant
                self.wf(),
                self.next == old(self).next,
                all == old(self)@,
                slots@.len() + self@.len() == all.len(),
                forall|i: int| 0 <= i < slots@.len() ==> slots@[i] == (#[trigger] all[i]).1,
                forall|i: int|
                    0 <= i < self@.len() ==> (#[trigger] self@[i]) == all[slots@.len() + i],
            decreases self.entries.len(),
        {
            let ghost before = self@;
            let ghost done = slots@;
            assert(before[0] == all[done.len() as int]);
            assert(before[0].1 == self.entries@[0].slot);
            let entry = self.entries.remove(0);
            assert(self@ =~= before.remove(0));
            slots.push(entry.slot);
            assert forall|i: int| 0 <= i < slots@.len() implies slots@[i] == (#[trigger] all[i]).1 by {
                if i < done.len() {
                    assert(slots@[i] == done[i]);
                }
            }
            assert forall|i: int| 0 <= i < self@.len() implies (#[trigger] self@[i]) == all[slots@.len()
                + i] by {
                assert(self@[i] == before[i + 1]);
            }
        }
        assert(self@ =~= Seq::<(Seq<char>, T)>::empty());
        assert(slots@ =~= all.map_values(|e: (Seq<char>, T)| e.1));
        slots
    }
}

/// Once a request is resolved, its identifier is pending no longer: a
/// second response with the same identifier finds no slot.
pub proof fn lemma_resolved_once<T>(m: Seq<(Seq<char>, T)>, id: Seq<char>)
    requires
        distinct_ids(m),
    ensures
        !is_pending(resolved_rest(m, id), id),
        resolved_slot(resolved_rest(m, id), id) is None,
        distinct_ids(resolved_rest(m, id)),
{
    lemma_slot_index(m, id, 0);
    let rest = resolved_rest(m, id);
    lemma_slot_index(rest, id, 0);
    let k = slot_index(m, id, 0);
    let j = slot_index(rest, id, 0);
    if k < m.len() {
        if j < rest.len() {
            if j < k {
                assert(rest[j] == m[j]);
            } else {
                assert(rest[j] == m[j + 1]);
            }
        }
        assert forall|a: int, b: int| 0 <= a < b < rest.len() implies (#[trigger] rest[a]).0 != (
        #[trigger] rest[b]).0 by {
            let a2 = if a < k {
                a
            } else {
                a + 1
            };
            let b2 = if b < k {
                b
            } else {
                b + 1
            };
            assert(rest[a] == m[a2]);
            assert(rest[b] == m[b2]);
        }
    }
}

/// The first entry of an identifier is where `slot_index` points.
pub proof fn lemma_slot_index_is<T>(m: Seq<(Seq<char>, T)>, id: Seq<char>, at: int)
    requires
        0 <= at <= m.len(),
        at < m.len() ==> m[at].0 == id,
        forall|i: int| 0 <= i < at ==> (#[trigger] m[i]).0 != id,
    ensures
        slot_index(m, id, 0) == at,
{
    lemma_slot_index(m, id, 0);
    let k = slot_index(m, id, 0);
    if k < at {
        assert(m[k].0 != id);
    }
}

/// A response reaches the request that carries its identifier: resolving
/// the identifier under which a slot was just registered hands out that
/// slot and leaves the table as it was before.
pub proof fn lemma_response_reaches_request<T>(m: Seq<(Seq<char>, T)>, id: Seq<char>, slot: T)
    requires
        !is_pending(m, id),
    ensures
        resolved_slot(m.push((id, slot)), id) == Some(slot),
        resolved_rest(m.push((id, slot)), id) == m,
{
    lemma_slot_index(m, id, 0);
    let grown = m.push((id, slot));
    assert forall|i: int| 0 <= i < m.len() implies (#[trigger] grown[i]).0 != id by {
        assert(grown[i] == m[i]);
    }
    lemma_slot_index_is(grown, id, m.len() as int);
    assert(grown.remove(m.len() as int) =~= m);
}

/// A response whose identifier is not pending reaches no caller, and the
/// table stays as it is.
pub proof fn lemma_unknown_response_dropped<T>(m: Seq<(Seq<char>, T)>, id: Seq<char>)
    requires
        !is_pending(m, id),
    ensures
        resolved_slot(m, id) is None,
        resolved_rest(m, id) == m,
{
}

/// The slot that a response reaches was registered under the identifier
/// that the response carries, and under no other.
pub proof fn lemma_slot_is_the_callers<T>(m: Seq<(Seq<char>, T)>, id: Seq<char>)
    requires
        is_pending(m, id),
    ensures
        0 <= slot_index(m, id, 0) < m.len(),
        m[slot_index(m, id, 0)] == (id, resolved_slot(m, id)->Some_0),
{
    lemma_slot_index(m, id, 0);
}

/// Where the entry of an identifier stands once another entry is taken out.
proof fn lemma_slot_index_after_remove<T>(m: Seq<(Seq<char>, T)>, id: Seq<char>, k: int)
    requires
        0 <= k < m.len(),
        m[k].0 != id,
    ensures
        slot_index(m.remove(k), id, 0) == (if slot_index(m, id, 0) < k {
            slot_index(m, id, 0)
        } else {
            slot_index(m, id, 0) - 1
        }),
{
    lemma_slot_index(m, id, 0);
    let j = slot_index(m, id, 0);
    let rest = m.remove(k);
    let at = if j < k {
        j
    } else {
        j - 1
    };
    assert forall|i: int| 0 <= i < at implies (#[trigger] rest[i]).0 != id by {
        if i < k {
            assert(rest[i] == m[i]);
        } else {
            assert(rest[i] == m[i + 1]);
        }
    }
    if j < m.len() {
        assert(rest[at] == m[j]);
    }
    lemma_slot_index_is(rest, id, at);
}

/// Requests complete independently: resolving one identifier changes
/// nothing for another. The other request stays pending or absent as it
/// was, and it is answered through the same slot.
pub proof fn lemma_requests_independent<T>(m: Seq<(Seq<char>, T)>, a: Seq<char>, b: Seq<char>)
    requires
        a != b,
    ensures
        is_pending(resolved_rest(m, a), b) == is_pending(m, b),
        resolved_slot(resolved_rest(m, a), b) == resolved_slot(m, b),
{
    lemma_slot_index(m, a, 0);
    lemma_slot_index(m, b, 0);
    let k = slot_index(m, a, 0);
    if k < m.len() {
        lemma_slot_index_after_remove(m, b, k);
    }
}

/// Two responses may arrive in either order: the same requests stay
/// pending afterwards.
pub proof fn lemma_resolve_commutes<T>(m: Seq<(Seq<char>, T)>, a: Seq<char>, b: Seq<char>)
    requires
        a != b,
    ensures
        resolved_rest(resolved_rest(m, a), b) == resolved_rest(resolved_rest(m, b), a),
{
    lemma_slot_index(m, a, 0);
    lemma_slot_index(m, b, 0);
    let k = slot_index(m, a, 0);
    let j = slot_index(m, b, 0);
    if k < m.len() {
        lemma_slot_index_after_remove(m, b, k);
    }
    if j < m.len() {
        lemma_slot_index_after_remove(m, a, j);
    }
    if k < m.len() && j < m.len() {
        if k < j {
            assert(m.remove(k).remove(j - 1) =~= m.remove(j).remove(k));
        } else {
            assert(m.remove(k).remove(j) =~= m.remove(j).remove(k - 1));
        }
    }
}

/// What stays pending once the responses with the identifiers `ids` have
/// arrived, one after the other.
pub open spec fn resolved_all<T>(m: Seq<(Seq<char>, T)>, ids: Seq<Seq<char>>) -> Seq<
    (Seq<char>, T),
>
    decreases ids.len(),
{
    if ids.len() == 0 {
        m
    } else {
        resolved_rest(resolved_all(m, ids.drop_last()), ids.last())
    }
}

/// However many other requests are answered in the meantime, and in
/// whatever order, a request stays pending as it was and is answered
/// through its own slot.
pub proof fn lemma_many_requests_independent<T>(
    m: Seq<(Seq<char>, T)>,
    others: Seq<Seq<char>>,
    id: Seq<char>,
)
    requires
        !others.contains(id),
    ensures
        is_pending(resolved_all(m, others), id) == is_pending(m, id),
        resolved_slot(resolved_all(m, others), id) == resolved_slot(m, id),
    decreases others.len(),
{
    if others.len() > 0 {
        let before = others.drop_last();
        assert forall|i: int| 0 <= i < before.len() implies before[i] != id by {
            assert(before[i] == others[i]);
        }
        assert(others.last() != id) by {
            assert(others[others.len() - 1] == others.last());
        }
        lemma_many_requests_independent(m, before, id);
        lemma_requests_independent(resolved_all(m, before), others.last(), id);
    }
}

} // verus!
