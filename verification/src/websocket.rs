//! The session hub: the registry of connected clients and the broadcast
//! sweep over it.
//!
//! A client is registered under the identifier of its session, with the
//! sending half of the queue that its connection drains. A broadcast offers
//! one frame to every registered client without waiting: a queue that is
//! full misses the frame, and a queue whose receiving half is gone is
//! struck from the registry in the same sweep.

use vstd::prelude::*;
use tokio::sync::mpsc::Sender;

verus! {

/// The port on the loopback address at which the clients connect.
pub const PORT: u16 = 49156;

/// How many frames the queue of one client holds.
pub const QUEUE_CAPACITY: usize = 100;

/// The sending half of a bounded `tokio` queue. Nothing is known here of
/// what the queue holds, nor of whether its receiving half still lives.
#[verifier::external_type_specification]
#[verifier::external_body]
#[verifier::reject_recursive_types(T)]
pub struct ExSender<T>(tokio::sync::mpsc::Sender<T>);

/// How the attempt to hand a frame to one client ended.
#[derive(Clone, Copy, Debug, PartialEq, Eq, Structural)]
pub enum Delivery {
    /// The frame is in the client's queue.
    Delivered,
    /// The client's queue was full: the frame was dropped for this client.
    Full,
    /// The receiving half of the client's queue is gone.
    Closed,
}

/// One line of a broadcast's report: the client and how the attempt ended.
#[derive(Clone, Copy, Debug, PartialEq, Eq, Structural)]
pub struct Attempt {
    pub id: u64,
    pub outcome: Delivery,
}

/// `Sender::try_send` of `tokio`: offers the message to the queue without
/// waiting, and tells apart the queue that took it, the full queue and the
/// queue whose receiving half is closed or dropped. Which of the three
/// comes back depends on the other half, so nothing is claimed of it.
#[verifier::external_body]
fn try_send(channel: &Sender<Vec<u8>>, message: Vec<u8>) -> (outcome: Delivery) {
    match channel.try_send(message) {
        Ok(()) => Delivery::Delivered,
        Err(tokio::sync::mpsc::error::TrySendError::Full(_)) => Delivery::Full,
        Err(tokio::sync::mpsc::error::TrySendError::Closed(_)) => Delivery::Closed,
    }
}

/// The registry with `id` in it: a client that is registered already
/// stays as it is.
pub open spec fn with_client(ids: Seq<u64>, id: u64) -> Seq<u64> {
    if ids.contains(id) {
        ids
    } else {
        ids.push(id)
    }
}

/// The registry without `id`.
pub open spec fn without_client(ids: Seq<u64>, id: u64) -> Seq<u64> {
    if ids.contains(id) {
        ids.remove(ids.index_of(id))
    } else {
        ids
    }
}

/// The clients that a report names, in its order.
pub open spec fn attempted(report: Seq<Attempt>) -> Seq<u64> {
    Seq::new(report.len(), |i: int| report[i].id)
}

/// The clients of a report that got the frame, in its order.
pub open spec fn delivered(report: Seq<Attempt>) -> Seq<u64>
    decreases report.len(),
{
    if report.len() == 0 {
        Seq::empty()
    } else if report[0].outcome == Delivery::Delivered {
        seq![report[0].id] + delivered(report.drop_first())
    } else {
        delivered(report.drop_first())
    }
}

/// The clients of a report that stay registered, in its order: all but
/// those whose queue was found closed.
pub open spec fn survivors(report: Seq<Attempt>) -> Seq<u64>
    decreases report.len(),
{
    if report.len() == 0 {
        Seq::empty()
    } else if report[0].outcome == Delivery::Closed {
        survivors(report.drop_first())
    } else {
        seq![report[0].id] + survivors(report.drop_first())
    }
}

/// One registered client.
struct Client {
    id: u64,
    channel: Sender<Vec<u8>>,
}

/// The identifiers of a row of clients.
spec fn ids_of(clients: Seq<Client>) -> Seq<u64> {
    Seq::new(clients.len(), |i: int| clients[i].id)
}

/// The session hub.
pub struct WebSocketService {
    clients: Vec<Client>,
}

impl View for WebSocketService {
    type V = Seq<u64>;

    /// The identifiers of the registered clients, in the order in which
    /// they were registered.
    closed spec fn view(&self) -> Seq<u64> {
        ids_of(self.clients@)
    }
}

impl WebSocketService {
    /// No client is registered twice.
    #[verifier::type_invariant]
    spec fn distinct(&self) -> bool {
        self@.no_duplicates()
    }

    /// The hub with no client.
    pub fn new() -> (hub: Self)
        ensures
            hub@ == Seq::<u64>::empty(),
    {
        let hub = WebSocketService { clients: Vec::new() };
        assert(hub@ =~= Seq::<u64>::empty());
        hub
    }

    /// How many clients are registered.
    pub fn len(&self) -> (n: usize)
        ensures
            n == self@.len(),
    {
        self.clients.len()
    }

    /// Where in the registry `id` stands.
    fn position(&self, id: u64) -> (found: Option<usize>)
        ensures
            match found {
                Some(i) => i < self@.len() && self@[i as int] == id,
                None => !self@.contains(id),
            },
    {
        let mut i: usize = 0;
        while i < self.clients.len()
            invariant
                i <= self.clients.len(),
                forall|j: int| 0 <= j < i ==> self@[j] != id,
            decreases self.clients.len() - i,
        {
            if self.clients[i].id == id {
                return Some(i);
            }
            i += 1;
        }
        None
    }

    /// Whether `id` is registered.
    pub fn contains(&self, id: u64) -> (found: bool)
        ensures
            found == self@.contains(id),
    {
        self.position(id).is_some()
    }

    /// Registers the client `id` with the sending half of its queue. A
    /// client that is registered already stays as it is, with the queue it
    /// was registered with. Returns whether the client was added.
    pub fn register(&mut self, id: u64, channel: Sender<Vec<u8>>) -> (added: bool)
        ensures
            final(self)@.no_duplicates(),
            final(self)@ == with_client(old(self)@, id),
            added == !old(self)@.contains(id),
    {
        proof {
            use_type_invariant(&*self);
        }
        if self.contains(id) {
            false
        } else {
            let mut clients: Vec<Client> = Vec::new();
            core::mem::swap(&mut self.clients, &mut clients);
            assert(self@ =~= Seq::<u64>::empty());
            clients.push(Client { id, channel });
            assert(ids_of(clients@) =~= old(self)@.push(id));
            proof {
                law_register(old(self)@, id);
            }
            self.clients = clients;
            true
        }
    }

    /// Strikes the client `id` from the registry. Nothing happens where it
    /// is not registered. Returns whether the client was struck.
    pub fn unregister(&mut self, id: u64) -> (removed: bool)
        ensures
            final(self)@.no_duplicates(),
            final(self)@ == without_client(old(self)@, id),
            removed == old(self)@.contains(id),
            !final(self)@.contains(id),
            forall|other: u64| other != id ==> final(self)@.contains(other) == old(self)@.contains(other),
    {
        proof {
            use_type_invariant(&*self);
            law_unregister(self@, id);
        }
        match self.position(id) {
            None => false,
            Some(i) => {
                let mut clients: Vec<Client> = Vec::new();
                core::mem::swap(&mut self.clients, &mut clients);
                assert(self@ =~= Seq::<u64>::empty());
                clients.remove(i);
                assert(ids_of(clients@) =~= old(self)@.remove(i as int));
                self.clients = clients;
                true
            },
        }
    }

    /// Offers `message` once to every registered client, in the order of
    /// the registry, and strikes the clients whose queue was found closed.
    /// The report holds one line for each client that was registered when
    /// the sweep began.
    pub fn send_message_to_clients(&mut self, message: Vec<u8>) -> (report: Vec<Attempt>)
        ensures
            old(self)@.no_duplicates(),
            final(self)@.no_duplicates(),
            attempted(report@) == old(self)@,
            final(self)@ == survivors(report@),
    {
        proof {
            use_type_invariant(&*self);
        }
        let mut report: Vec<Attempt> = Vec::new();
        let mut i: usize = 0;
        while i < self.clients.len()
            invariant
                i <= self.clients.len(),
                *self == *old(self),
                attempted(report@) == self@.take(i as int),
            decreases self.clients.len() - i,
        {
            let ghost before = report@;
            let outcome = try_send(&self.clients[i].channel, message.clone());
            let id = self.clients[i].id;
            report.push(Attempt { id, outcome });
            assert(attempted(before).len() == i);
            assert(self@[i as int] == id);
            assert(attempted(report@) =~= attempted(before).push(id));
            assert(self@.take(i + 1) =~= self@.take(i as int).push(id));
            i += 1;
        }
        assert(self@.take(i as int) =~= self@);
        self.strike_closed(&report);
        proof {
            use_type_invariant(&*self);
        }
        report
    }

    /// Strikes the clients that `report` found closed.
    fn strike_closed(&mut self, report: &Vec<Attempt>)
        requires
            attempted(report@) == old(self)@,
        ensures
            final(self)@ == survivors(report@),
    {
        proof {
            use_type_invariant(&*self);
        }
        let ghost all = self@;
        let mut clients: Vec<Client> = Vec::new();
        core::mem::swap(&mut self.clients, &mut clients);
        assert(self@ =~= Seq::<u64>::empty());
        let mut i: usize = clients.len();
        assert(attempted(report@).len() == report@.len());
        assert(report@.skip(i as int) =~= Seq::<Attempt>::empty());
        assert(all.take(i as int) + Seq::<u64>::empty() =~= all);
        while i > 0
            invariant
                i <= report@.len(),
                attempted(report@) == all,
                all.no_duplicates(),
                clients@.len() >= i,
                ids_of(clients@) == all.take(i as int) + survivors(report@.skip(i as int)),
                ids_of(clients@).no_duplicates(),
            decreases i,
        {
            i -= 1;
            let ghost before = ids_of(clients@);
            let ghost tail = report@.skip(i + 1);
            assert(report@.skip(i as int).drop_first() =~= tail);
            assert(report@.skip(i as int)[0] == report@[i as int]);
            assert(all[i as int] == report@[i as int].id);
            if report[i].outcome == Delivery::Closed {
                clients.remove(i);
                assert(ids_of(clients@) =~= before.remove(i as int));
                assert(ids_of(clients@) =~= all.take(i as int) + survivors(report@.skip(i as int)));
                proof {
                    lemma_remove_keeps_distinct(before, i as int);
                }
            } else {
                assert(ids_of(clients@) =~= all.take(i as int) + survivors(report@.skip(i as int)));
            }
        }
        assert(report@.skip(0) =~= report@);
        assert(all.take(0) + survivors(report@) =~= survivors(report@));
        self.clients = clients;
    }
}

/// A sequence without repetition has none after one element has left.
proof fn lemma_remove_keeps_distinct(ids: Seq<u64>, i: int)
    requires
        ids.no_duplicates(),
        0 <= i < ids.len(),
    ensures
        ids.remove(i).no_duplicates(),
        !ids.remove(i).contains(ids[i]),
        forall|other: u64| other != ids[i] ==> ids.remove(i).contains(other) == ids.contains(other),
{
    let out = ids.remove(i);
    assert forall|a: int, b: int| 0 <= a < out.len() && 0 <= b < out.len() && a != b implies out[a]
        != out[b] by {
        let a0 = if a < i { a } else { a + 1 };
        let b0 = if b < i { b } else { b + 1 };
        assert(out[a] == ids[a0] && out[b] == ids[b0]);
    }
    if out.contains(ids[i]) {
        let a = choose|a: int| 0 <= a < out.len() && out[a] == ids[i];
        let a0 = if a < i { a } else { a + 1 };
        assert(out[a] == ids[a0]);
    }
    assert forall|other: u64| other != ids[i] implies out.contains(other) == ids.contains(other) by {
        if out.contains(other) {
            let a = choose|a: int| 0 <= a < out.len() && out[a] == other;
            let a0 = if a < i { a } else { a + 1 };
            assert(ids[a0] == other);
        }
        if ids.contains(other) {
            let a0 = choose|a: int| 0 <= a < ids.len() && ids[a] == other;
            let a = if a0 < i { a0 } else { a0 - 1 };
            assert(out[a] == other);
        }
    }
}

/// What registering does to the registry: the client is in it, every
/// other client is as before, and no client stands twice.
pub proof fn law_register(ids: Seq<u64>, id: u64)
    requires
        ids.no_duplicates(),
    ensures
        with_client(ids, id).no_duplicates(),
        with_client(ids, id).contains(id),
        forall|other: u64| other != id ==> with_client(ids, id).contains(other) == ids.contains(other),
        ids.contains(id) ==> with_client(ids, id) == ids,
{
    if !ids.contains(id) {
        let now = ids.push(id);
        assert(now[ids.len() as int] == id);
        assert forall|a: int, b: int| 0 <= a < now.len() && 0 <= b < now.len() && a != b implies now[a]
            != now[b] by {
            if a == ids.len() {
                assert(ids[b] == now[b]);
            }
            if b == ids.len() {
                assert(ids[a] == now[a]);
            }
        }
        assert forall|other: u64| other != id implies now.contains(other) == ids.contains(other) by {
            if now.contains(other) {
                let k = choose|k: int| 0 <= k < now.len() && now[k] == other;
                assert(ids[k] == other);
            }
            if ids.contains(other) {
                let k = choose|k: int| 0 <= k < ids.len() && ids[k] == other;
                assert(now[k] == other);
            }
        }
    }
}

/// What unregistering does to the registry: the client is gone, every
/// other client stays, and no client stands twice.
pub proof fn law_unregister(ids: Seq<u64>, id: u64)
    requires
        ids.no_duplicates(),
    ensures
        without_client(ids, id).no_duplicates(),
        !without_client(ids, id).contains(id),
        forall|other: u64| other != id ==> without_client(ids, id).contains(other) == ids.contains(other),
        forall|i: int| 0 <= i < ids.len() && ids[i] == id ==> without_client(ids, id) == ids.remove(i),
{
    if ids.contains(id) {
        let k = ids.index_of(id);
        lemma_remove_keeps_distinct(ids, k);
    }
}

/// Unregistering is idempotent: a client that is not registered, be it
/// that it never was or that it was struck before, is unregistered without
/// any change to the registry.
pub proof fn law_unregister_idempotent(ids: Seq<u64>, id: u64)
    requires
        ids.no_duplicates(),
    ensures
        !ids.contains(id) ==> without_client(ids, id) == ids,
        without_client(without_client(ids, id), id) == without_client(ids, id),
{
    law_unregister(ids, id);
}

/// The survivors of a report are found part by part.
proof fn lemma_survivors_concat(a: Seq<Attempt>, b: Seq<Attempt>)
    ensures
        survivors(a + b) == survivors(a) + survivors(b),
    decreases a.len(),
{
    if a.len() == 0 {
        assert(a + b =~= b);
        assert(survivors(a) + survivors(b) =~= survivors(b));
    } else {
        assert((a + b).drop_first() =~= a.drop_first() + b);
        lemma_survivors_concat(a.drop_first(), b);
        assert(survivors(a + b) =~= survivors(a) + survivors(b));
    }
}

/// The clients that a report delivered to are found part by part.
proof fn lemma_delivered_concat(a: Seq<Attempt>, b: Seq<Attempt>)
    ensures
        delivered(a + b) == delivered(a) + delivered(b),
    decreases a.len(),
{
    if a.len() == 0 {
        assert(a + b =~= b);
        assert(delivered(a) + delivered(b) =~= delivered(b));
    } else {
        assert((a + b).drop_first() =~= a.drop_first() + b);
        lemma_delivered_concat(a.drop_first(), b);
        assert(delivered(a + b) =~= delivered(a) + delivered(b));
    }
}

/// Where every queue took the frame, every client of the report got it
/// and every client stays.
proof fn lemma_all_delivered(report: Seq<Attempt>)
    requires
        forall|i: int| 0 <= i < report.len() ==> report[i].outcome == Delivery::Delivered,
    ensures
        delivered(report) == attempted(report),
        survivors(report) == attempted(report),
    decreases report.len(),
{
    if report.len() == 0 {
        assert(attempted(report) =~= Seq::<u64>::empty());
    } else {
        let rest = report.drop_first();
        lemma_all_delivered(rest);
        assert(attempted(report) =~= seq![report[0].id] + attempted(rest));
    }
}

/// No sweep offers a frame to a client that is not registered, nor twice
/// to one that is, and none adds a client: the clients that got the frame
/// and the clients that stay are each a part of the report, which holds
/// every registered client once.
pub proof fn law_broadcast_within_registry(ids: Seq<u64>, report: Seq<Attempt>)
    requires
        ids.no_duplicates(),
        attempted(report) == ids,
    ensures
        report.len() == ids.len(),
        forall|id: u64| delivered(report).contains(id) ==> ids.contains(id),
        forall|id: u64| survivors(report).contains(id) ==> ids.contains(id),
        forall|i: int|
            0 <= i < report.len() ==> (survivors(report).contains(#[trigger] report[i].id)
                <==> report[i].outcome != Delivery::Closed),
        forall|i: int|
            0 <= i < report.len() ==> (delivered(report).contains(#[trigger] report[i].id)
                <==> report[i].outcome == Delivery::Delivered),
        delivered(report).no_duplicates(),
        survivors(report).no_duplicates(),
    decreases report.len(),
{
    assert(attempted(report).len() == report.len());
    if report.len() > 0 {
        let head = report[0];
        let rest = report.drop_first();
        let rest_ids = ids.drop_first();
        assert(attempted(rest) =~= rest_ids);
        assert(ids[0] == head.id);
        assert forall|i: int| 0 <= i < rest_ids.len() implies rest_ids[i] != head.id by {
            assert(rest_ids[i] == ids[i + 1]);
        }
        assert(rest_ids.no_duplicates()) by {
            assert forall|a: int, b: int|
                0 <= a < rest_ids.len() && 0 <= b < rest_ids.len() && a != b implies rest_ids[a]
                != rest_ids[b] by {
                assert(rest_ids[a] == ids[a + 1] && rest_ids[b] == ids[b + 1]);
            }
        }
        law_broadcast_within_registry(rest_ids, rest);
        let d = delivered(report);
        let dr = delivered(rest);
        let s = survivors(report);
        let sr = survivors(rest);
        assert forall|id: u64| rest_ids.contains(id) implies ids.contains(id) by {
            let k = choose|k: int| 0 <= k < rest_ids.len() && rest_ids[k] == id;
            assert(ids[k + 1] == id);
        }
        assert(!dr.contains(head.id)) by {
            if dr.contains(head.id) {
                assert(rest_ids.contains(head.id));
            }
        }
        assert(!sr.contains(head.id)) by {
            if sr.contains(head.id) {
                assert(rest_ids.contains(head.id));
            }
        }
        lemma_cons_contains(head.id, dr);
        lemma_cons_contains(head.id, sr);
        assert forall|i: int| 0 <= i < report.len() implies (s.contains(#[trigger] report[i].id)
            <==> report[i].outcome != Delivery::Closed) && (d.contains(report[i].id)
            <==> report[i].outcome == Delivery::Delivered) by {
            if i > 0 {
                assert(report[i] == rest[i - 1]);
                assert(rest_ids[i - 1] == rest[i - 1].id);
            }
        }
    }
}

/// What a sequence holds once an element stands before it.
proof fn lemma_cons_contains(head: u64, rest: Seq<u64>)
    ensures
        forall|id: u64| (seq![head] + rest).contains(id) <==> id == head || rest.contains(id),
        rest.no_duplicates() && !rest.contains(head) ==> (seq![head] + rest).no_duplicates(),
{
    let all = seq![head] + rest;
    assert forall|id: u64| all.contains(id) <==> id == head || rest.contains(id) by {
        if all.contains(id) {
            let k = choose|k: int| 0 <= k < all.len() && all[k] == id;
            if k > 0 {
                assert(rest[k - 1] == id);
            }
        }
        if id == head {
            assert(all[0] == id);
        }
        if rest.contains(id) {
            let k = choose|k: int| 0 <= k < rest.len() && rest[k] == id;
            assert(all[k + 1] == id);
        }
    }
    if rest.no_duplicates() && !rest.contains(head) {
        assert forall|a: int, b: int| 0 <= a < all.len() && 0 <= b < all.len() && a != b implies all[a]
            != all[b] by {
            if a > 0 {
                assert(all[a] == rest[a - 1]);
            }
            if b > 0 {
                assert(all[b] == rest[b - 1]);
            }
        }
    }
}

/// Fan-out: where one registered client's queue is closed and every other
/// queue takes the frame, the sweep delivers to every client but that one
/// and strikes that one, so that one client fewer is registered; and the
/// next sweep, whose queues all take the frame, delivers to exactly those
/// that stayed and strikes none.
pub proof fn law_broadcast_fan_out(ids: Seq<u64>, report: Seq<Attempt>, closed: int, next: Seq<Attempt>)
    requires
        ids.no_duplicates(),
        attempted(report) == ids,
        0 <= closed < ids.len(),
        forall|i: int|
            0 <= i < report.len() ==> report[i].outcome == (if i == closed {
                Delivery::Closed
            } else {
                Delivery::Delivered
            }),
        attempted(next) == survivors(report),
        forall|i: int| 0 <= i < next.len() ==> next[i].outcome == Delivery::Delivered,
    ensures
        delivered(report) == ids.remove(closed),
        survivors(report) == ids.remove(closed),
        survivors(report) == without_client(ids, ids[closed]),
        survivors(report).len() == ids.len() - 1,
        delivered(next) == survivors(report),
        survivors(next) == survivors(report),
        next.len() == ids.len() - 1,
{
    assert(attempted(report).len() == report.len());
    let before = report.take(closed);
    let one = seq![report[closed]];
    let after = report.skip(closed + 1);
    assert(report =~= before + one + after);
    lemma_all_delivered(before);
    lemma_all_delivered(after);
    lemma_survivors_concat(before + one, after);
    lemma_survivors_concat(before, one);
    lemma_delivered_concat(before + one, after);
    lemma_delivered_concat(before, one);
    assert(one.drop_first().len() == 0);
    assert(survivors(one.drop_first()) =~= Seq::<u64>::empty());
    assert(delivered(one.drop_first()) =~= Seq::<u64>::empty());
    assert(survivors(one) =~= Seq::<u64>::empty());
    assert(delivered(one) =~= Seq::<u64>::empty());
    assert(attempted(before) + attempted(after) =~= ids.remove(closed));
    assert(survivors(report) =~= ids.remove(closed));
    assert(delivered(report) =~= ids.remove(closed));
    law_unregister(ids, ids[closed]);
    lemma_all_delivered(next);
    assert(attempted(next).len() == next.len());
}

/// One step of a registry's history.
pub enum RegistryOp {
    Register(u64),
    Unregister(u64),
}

/// The registry that a history of registrations and strikings leaves,
/// whatever connections they came from and however they were interleaved.
pub open spec fn replay(history: Seq<RegistryOp>) -> Seq<u64>
    decreases history.len(),
{
    if history.len() == 0 {
        Seq::empty()
    } else {
        match history.last() {
            RegistryOp::Register(id) => with_client(replay(history.drop_last()), id),
            RegistryOp::Unregister(id) => without_client(replay(history.drop_last()), id),
        }
    }
}

/// Whether `id` was registered in a history and not struck since.
pub open spec fn live_after(history: Seq<RegistryOp>, id: u64) -> bool
    decreases history.len(),
{
    if history.len() == 0 {
        false
    } else {
        match history.last() {
            RegistryOp::Register(other) => other == id || live_after(history.drop_last(), id),
            RegistryOp::Unregister(other) => other != id && live_after(history.drop_last(), id),
        }
    }
}

/// Interleaved registrations and strikings lose no client and register
/// none twice: after any history the registry holds, once each, exactly
/// the clients that were registered and not struck since. A sweep that
/// begins then makes one attempt for each of them and for no other.
pub proof fn law_registry_history(history: Seq<RegistryOp>)
    ensures
        replay(history).no_duplicates(),
        forall|id: u64| replay(history).contains(id) <==> live_after(history, id),
        forall|report: Seq<Attempt>|
            attempted(report) == replay(history) ==> #[trigger] report.len() == replay(history).len(),
    decreases history.len(),
{
    assert forall|report: Seq<Attempt>| attempted(report) == replay(history) implies #[trigger] report.len()
        == replay(history).len() by {
        assert(attempted(report).len() == report.len());
    }
    if history.len() > 0 {
        let earlier = history.drop_last();
        let before = replay(earlier);
        law_registry_history(earlier);
        match history.last() {
            RegistryOp::Register(id) => {
                law_register(before, id);
                assert forall|other: u64| replay(history).contains(other) <==> live_after(
                    history,
                    other,
                ) by {
                    assert(before.contains(other) <==> live_after(earlier, other));
                }
            },
            RegistryOp::Unregister(id) => {
                law_unregister(before, id);
                assert forall|other: u64| replay(history).contains(other) <==> live_after(
                    history,
                    other,
                ) by {
                    assert(before.contains(other) <==> live_after(earlier, other));
                }
            },
        }
    } else {
        assert forall|other: u64| !replay(history).contains(other) by {}
    }
}

} // verus!
