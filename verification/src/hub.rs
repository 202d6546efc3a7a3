//! The hub: the socket-accepting, broadcast-capable IPC endpoint embedded in
//! the desktop application process.
//!
//! The hub owns an outbound queue of texts and the set of accepted
//! connections. The embedding process runs the socket itself; this module
//! decides everything else: which client id an accepted connection gets,
//! which event each socket read turns into, and which writes a broadcast
//! tick performs. Every operation is a step of [`hub_step`], so the laws
//! proved of step sequences hold of any run of the hub.

use vstd::prelude::*;

verus! {

use vstd::utf8::valid_utf8;
use vstd::utf8::decode_utf8;
use crate::codec::string_from_utf8;

/// Milliseconds between two wakings of the periodic broadcast task.
pub const BROADCAST_INTERVAL_MS: u64 = 100;

/// The unit of inbound notification from the hub to the hosting application.
/// `message` is empty for `Connected` and `Disconnected` events, else the raw
/// decoded text.
#[derive(Debug)]
pub struct Message {
    pub client_id: u32,
    pub kind: MessageType,
    pub message: String,
}

/// The kind of a [`Message`].
#[derive(Debug, Clone, Copy, PartialEq, Eq, Structural)]
pub enum MessageType {
    Connected,
    Disconnected,
    Message,
}

/// An error of the hub. Broadcast writes that fail are ignored by design, so
/// the only fallible public operation is the reserved shutdown path.
#[derive(Debug, Clone, Copy, PartialEq, Eq, Structural)]
pub enum HubError {
    WriteFailed,
}

/// The mathematical state of a hub: the outbound queue (oldest first), the
/// client ids of the live connections in acceptance order, and the id the
/// next accepted connection will get.
pub struct HubView {
    pub queue: Seq<Seq<char>>,
    pub conns: Seq<u32>,
    pub next_id: int,
}

/// One operation on the hub.
pub enum HubOp {
    /// The hosting application enqueues a text.
    Send(Seq<char>),
    /// A connection is accepted.
    Accept,
    /// The periodic broadcast task drains the queue.
    Tick,
    /// A dead connection is pruned.
    Prune(u32),
}

/// The state of a freshly started hub.
pub open spec fn init_hub() -> HubView {
    HubView { queue: Seq::empty(), conns: Seq::empty(), next_id: 1 }
}

/// Well-formedness: ids already handed out are below `next_id`, no id is
/// held by two connections, ids start at 1, and the counter fits its field.
pub open spec fn hub_wf(h: HubView) -> bool {
    &&& forall|i: int| 0 <= i < h.conns.len() ==> h.conns[i] < h.next_id
    &&& h.conns.no_duplicates()
    &&& 1 <= h.next_id <= u32::MAX
}

/// The connection list after pruning `id`: its first (under well-formedness,
/// only) occurrence is removed.
pub open spec fn prune_conns(conns: Seq<u32>, id: u32) -> Seq<u32> {
    match conns.index_of_first(id) {
        Some(i) => conns.remove(i),
        None => conns,
    }
}

/// The hub state after one operation.
pub open spec fn hub_step(h: HubView, op: HubOp) -> HubView {
    match op {
        HubOp::Send(t) => HubView { queue: h.queue.push(t), ..h },
        HubOp::Accept => HubView {
            conns: h.conns.push(h.next_id as u32),
            next_id: h.next_id + 1,
            ..h
        },
        HubOp::Tick => HubView { queue: Seq::empty(), ..h },
        HubOp::Prune(id) => HubView { conns: prune_conns(h.conns, id), ..h },
    }
}

/// The hub state after a sequence of operations.
pub open spec fn hub_run(h: HubView, ops: Seq<HubOp>) -> HubView
    decreases ops.len(),
{
    if ops.len() == 0 {
        h
    } else {
        hub_run(hub_step(h, ops[0]), ops.drop_first())
    }
}

/// The client ids issued by the `Accept` operations of `ops`, in order.
pub open spec fn issued_ids(h: HubView, ops: Seq<HubOp>) -> Seq<int>
    decreases ops.len(),
{
    if ops.len() == 0 {
        Seq::empty()
    } else {
        let rest = issued_ids(hub_step(h, ops[0]), ops.drop_first());
        if ops[0] is Accept {
            seq![h.next_id] + rest
        } else {
            rest
        }
    }
}

/// Every operation keeps the hub well-formed. An `Accept` asks that the id
/// counter has room, as the hub's own accept path does.
pub proof fn lemma_hub_step_preserves_wf(h: HubView, op: HubOp)
    requires
        hub_wf(h),
        op is Accept ==> h.next_id < u32::MAX,
    ensures
        hub_wf(hub_step(h, op)),
{
    match op {
        HubOp::Send(_) => {},
        HubOp::Accept => {
            let c2 = hub_step(h, op).conns;
            assert forall|i: int, j: int|
                0 <= i < c2.len() && 0 <= j < c2.len() && i != j implies c2[i] != c2[j] by {
                if i < h.conns.len() && j < h.conns.len() {
                    assert(h.conns[i] != h.conns[j]);
                }
            }
        },
        HubOp::Tick => {},
        HubOp::Prune(id) => {
            h.conns.index_of_first_ensures(id);
            match h.conns.index_of_first(id) {
                Some(ix) => {
                    let c2 = h.conns.remove(ix);
                    assert forall|i: int, j: int|
                        0 <= i < c2.len() && 0 <= j < c2.len() && i != j implies c2[i] != c2[j] by {
                        let i0: int = if i < ix { i } else { i + 1 };
                        let j0: int = if j < ix { j } else { j + 1 };
                        assert(c2[i] == h.conns[i0]);
                        assert(c2[j] == h.conns[j0]);
                    }
                    assert forall|i: int| 0 <= i < c2.len() implies c2[i] < h.next_id by {
                        let i0: int = if i < ix { i } else { i + 1 };
                        assert(c2[i] == h.conns[i0]);
                    }
                },
                None => {},
            }
        },
    }
}

/// Along any run, the id counter never goes down.
pub proof fn lemma_next_id_monotone(h: HubView, ops: Seq<HubOp>)
    ensures
        hub_run(h, ops).next_id >= h.next_id,
    decreases ops.len(),
{
    if ops.len() > 0 {
        lemma_next_id_monotone(hub_step(h, ops[0]), ops.drop_first());
    }
}

/// Every id issued during a run is at least the id counter at its start.
pub proof fn lemma_issued_ids_bounds(h: HubView, ops: Seq<HubOp>)
    ensures
        forall|k: int|
            0 <= k < issued_ids(h, ops).len() ==> #[trigger] issued_ids(h, ops)[k] >= h.next_id,
    decreases ops.len(),
{
    if ops.len() > 0 {
        let h2 = hub_step(h, ops[0]);
        lemma_issued_ids_bounds(h2, ops.drop_first());
        let rest = issued_ids(h2, ops.drop_first());
        assert(h2.next_id >= h.next_id);
        assert forall|k: int|
            0 <= k < issued_ids(h, ops).len() implies #[trigger] issued_ids(h, ops)[k]
            >= h.next_id by {
            if ops[0] is Accept {
                if k > 0 {
                    assert(issued_ids(h, ops)[k] == rest[k - 1]);
                }
            } else {
                assert(issued_ids(h, ops)[k] == rest[k]);
            }
        }
    }
}

/// Law: in any run of the hub, the client ids issued by the accepted
/// connections are strictly increasing in acceptance order; in particular no
/// id is ever issued twice within the process's lifetime.
pub proof fn lemma_issued_ids_strictly_increasing(h: HubView, ops: Seq<HubOp>, a: int, b: int)
    requires
        0 <= a < b < issued_ids(h, ops).len(),
    ensures
        issued_ids(h, ops)[a] < issued_ids(h, ops)[b],
    decreases ops.len(),
{
    if ops.len() > 0 {
        let h2 = hub_step(h, ops[0]);
        let rest = issued_ids(h2, ops.drop_first());
        if ops[0] is Accept {
            if a == 0 {
                lemma_issued_ids_bounds(h2, ops.drop_first());
                assert(issued_ids(h, ops)[b] == rest[b - 1]);
                assert(rest[b - 1] >= h2.next_id);
            } else {
                lemma_issued_ids_strictly_increasing(h2, ops.drop_first(), a - 1, b - 1);
            }
        } else {
            lemma_issued_ids_strictly_increasing(h2, ops.drop_first(), a, b);
        }
    }
}

/// One write the broadcast task is to perform: `message` onto the stream of
/// client `client_id`.
#[derive(Debug)]
pub struct Delivery {
    pub client_id: u32,
    pub message: String,
}

/// The writes of one queued text: one per live connection, in connection-set
/// order.
pub open spec fn row(conns: Seq<u32>, t: Seq<char>) -> Seq<(u32, Seq<char>)>
    decreases conns.len(),
{
    if conns.len() == 0 {
        Seq::empty()
    } else {
        row(conns.drop_last(), t) + seq![(conns.last(), t)]
    }
}

/// The writes of one broadcast tick: every queued text, oldest first, to
/// every live connection.
pub open spec fn broadcast_plan(queue: Seq<Seq<char>>, conns: Seq<u32>) -> Seq<(u32, Seq<char>)>
    decreases queue.len(),
{
    if queue.len() == 0 {
        Seq::empty()
    } else {
        broadcast_plan(queue.drop_last(), conns) + row(conns, queue.last())
    }
}

/// The texts a write plan delivers to client `c`, in order.
pub open spec fn delivered_to(plan: Seq<(u32, Seq<char>)>, c: u32) -> Seq<Seq<char>>
    decreases plan.len(),
{
    if plan.len() == 0 {
        Seq::empty()
    } else {
        delivered_to(plan.drop_last(), c) + (if plan.last().0 == c {
            seq![plan.last().1]
        } else {
            Seq::empty()
        })
    }
}

/// The pairs a sequence of deliveries stands for.
pub open spec fn plan_view(s: Seq<Delivery>) -> Seq<(u32, Seq<char>)> {
    Seq::new(s.len(), |i: int| (s[i].client_id, s[i].message@))
}

/// Deliveries distribute over concatenation of write plans.
pub proof fn lemma_delivered_to_add(a: Seq<(u32, Seq<char>)>, b: Seq<(u32, Seq<char>)>, c: u32)
    ensures
        delivered_to(a + b, c) == delivered_to(a, c) + delivered_to(b, c),
    decreases b.len(),
{
    if b.len() == 0 {
        assert(a + b =~= a);
        assert(delivered_to(a, c) + delivered_to(b, c) =~= delivered_to(a, c));
    } else {
        assert((a + b).drop_last() =~= a + b.drop_last());
        assert((a + b).last() == b.last());
        lemma_delivered_to_add(a, b.drop_last(), c);
        let tail: Seq<Seq<char>> = if b.last().0 == c {
            seq![b.last().1]
        } else {
            Seq::empty()
        };
        assert(delivered_to(a + b, c) == delivered_to(a, c) + delivered_to(b.drop_last(), c)
            + tail);
        assert(delivered_to(a, c) + delivered_to(b.drop_last(), c) + tail =~= delivered_to(a, c)
            + (delivered_to(b.drop_last(), c) + tail));
    }
}

/// What one row delivers to client `c`: the row's text exactly once when `c`
/// is connected (the connection set holding no id twice), and nothing when it
/// is not.
pub proof fn lemma_row_delivers(conns: Seq<u32>, t: Seq<char>, c: u32)
    ensures
        !conns.contains(c) ==> delivered_to(row(conns, t), c) == Seq::<Seq<char>>::empty(),
        conns.contains(c) && conns.no_duplicates() ==> delivered_to(row(conns, t), c) == seq![t],
    decreases conns.len(),
{
    if conns.len() == 0 {
        assert(!conns.contains(c));
        assert(delivered_to(row(conns, t), c) =~= Seq::<Seq<char>>::empty());
    } else {
        let cd = conns.drop_last();
        assert(cd.no_duplicates() <== conns.no_duplicates());
        lemma_row_delivers(cd, t, c);
        lemma_delivered_to_add(row(cd, t), seq![(conns.last(), t)], c);
        let single = seq![(conns.last(), t)];
        let stail: Seq<Seq<char>> = if conns.last() == c {
            seq![t]
        } else {
            Seq::empty()
        };
        assert(single.drop_last() =~= Seq::<(u32, Seq<char>)>::empty());
        assert(delivered_to(single, c) == delivered_to(Seq::<(u32, Seq<char>)>::empty(), c)
            + stail);
        assert(delivered_to(Seq::<(u32, Seq<char>)>::empty(), c) + stail =~= stail);
        assert(delivered_to(single, c) == stail);
        if !conns.contains(c) {
            assert(!cd.contains(c)) by {
                if cd.contains(c) {
                    let w = choose|w: int| 0 <= w < cd.len() && cd[w] == c;
                    assert(conns[w] == c);
                }
            }
            assert(conns.last() != c);
            assert(delivered_to(row(conns, t), c) =~= Seq::<Seq<char>>::empty());
        } else if conns.no_duplicates() {
            if conns.last() == c {
                assert(!cd.contains(c)) by {
                    if cd.contains(c) {
                        let w = choose|w: int| 0 <= w < cd.len() && cd[w] == c;
                        assert(conns[w] == conns[conns.len() - 1]);
                    }
                }
                assert(delivered_to(row(conns, t), c) =~= seq![t]);
            } else {
                assert(cd.contains(c)) by {
                    let w = choose|w: int| 0 <= w < conns.len() && conns[w] == c;
                    assert(cd[w] == c);
                }
                assert(delivered_to(row(conns, t), c) =~= seq![t]);
            }
        }
    }
}

/// Law: one broadcast tick delivers to every currently-connected client every
/// queued text, in exactly the order the texts were enqueued.
pub proof fn lemma_broadcast_delivers_queue_in_order(
    queue: Seq<Seq<char>>,
    conns: Seq<u32>,
    c: u32,
)
    requires
        conns.no_duplicates(),
        conns.contains(c),
    ensures
        delivered_to(broadcast_plan(queue, conns), c) == queue,
    decreases queue.len(),
{
    if queue.len() == 0 {
        assert(delivered_to(broadcast_plan(queue, conns), c) =~= queue);
    } else {
        lemma_broadcast_delivers_queue_in_order(queue.drop_last(), conns, c);
        lemma_delivered_to_add(broadcast_plan(queue.drop_last(), conns), row(conns, queue.last()), c);
        lemma_row_delivers(conns, queue.last(), c);
        assert(queue.drop_last() + seq![queue.last()] =~= queue);
    }
}

/// Law: a broadcast tick delivers nothing to a client that is not connected
/// when the tick runs, and it leaves the queue empty — so a client that
/// connects after a text was broadcast never receives that text.
pub proof fn lemma_late_client_receives_nothing(h: HubView, c: u32)
    requires
        !h.conns.contains(c),
    ensures
        delivered_to(broadcast_plan(h.queue, h.conns), c) == Seq::<Seq<char>>::empty(),
        hub_step(h, HubOp::Tick).queue == Seq::<Seq<char>>::empty(),
    decreases h.queue.len(),
{
    let queue = h.queue;
    let conns = h.conns;
    if queue.len() == 0 {
        assert(delivered_to(broadcast_plan(queue, conns), c) =~= Seq::<Seq<char>>::empty());
    } else {
        lemma_late_client_receives_nothing(HubView { queue: queue.drop_last(), ..h }, c);
        lemma_delivered_to_add(broadcast_plan(queue.drop_last(), conns), row(conns, queue.last()), c);
        lemma_row_delivers(conns, queue.last(), c);
        assert(delivered_to(broadcast_plan(queue, conns), c) =~= Seq::<Seq<char>>::empty());
    }
}

/// Whether every accept of `ops`, run from `h`, happens with room left in
/// the id counter, as the hub's own accept path requires.
pub open spec fn accepts_in_bounds(h: HubView, ops: Seq<HubOp>) -> bool
    decreases ops.len(),
{
    if ops.len() == 0 {
        true
    } else {
        &&& (ops[0] is Accept ==> h.next_id < u32::MAX)
        &&& accepts_in_bounds(hub_step(h, ops[0]), ops.drop_first())
    }
}

/// A well-formed hub stays well-formed along any run whose accepts have room.
pub proof fn lemma_hub_run_preserves_wf(h: HubView, ops: Seq<HubOp>)
    requires
        hub_wf(h),
        accepts_in_bounds(h, ops),
    ensures
        hub_wf(hub_run(h, ops)),
    decreases ops.len(),
{
    if ops.len() > 0 {
        lemma_hub_step_preserves_wf(h, ops[0]);
        lemma_hub_run_preserves_wf(hub_step(h, ops[0]), ops.drop_first());
    }
}

/// Law: in any state the hub can reach, a client id that has not been issued
/// yet is held by no connection, and a broadcast tick there delivers nothing
/// to it. A client accepted later gets an id at least the counter's value in
/// every earlier state, so no tick before its accept delivers to it.
pub proof fn lemma_unissued_id_not_connected(h: HubView, ops: Seq<HubOp>, c: u32)
    requires
        hub_wf(h),
        accepts_in_bounds(h, ops),
        c >= hub_run(h, ops).next_id,
    ensures
        !hub_run(h, ops).conns.contains(c),
        delivered_to(broadcast_plan(hub_run(h, ops).queue, hub_run(h, ops).conns), c)
            == Seq::<Seq<char>>::empty(),
{
    lemma_hub_run_preserves_wf(h, ops);
    let s = hub_run(h, ops);
    assert(!s.conns.contains(c)) by {
        if s.conns.contains(c) {
            let w = choose|w: int| 0 <= w < s.conns.len() && s.conns[w] == c;
            assert(s.conns[w] < s.next_id);
        }
    }
    lemma_late_client_receives_nothing(s, c);
}

/// Appending a delivery appends its pair to the plan's view.
pub proof fn lemma_plan_view_push(s: Seq<Delivery>, d: Delivery)
    ensures
        plan_view(s.push(d)) == plan_view(s).push((d.client_id, d.message@)),
{
    assert(plan_view(s.push(d)) =~= plan_view(s).push((d.client_id, d.message@)));
}

/// The hub instance: the outbound queue, the connection set and the id
/// counter, owned explicitly rather than as process-global state.
pub struct IpcContext {
    messages: Vec<String>,
    connections: Vec<u32>,
    next_client_id: u32,
}

impl View for IpcContext {
    type V = HubView;

    closed spec fn view(&self) -> HubView {
        HubView {
            queue: self.messages.deep_view(),
            conns: self.connections@,
            next_id: self.next_client_id as int,
        }
    }
}

impl IpcContext {
    /// A freshly started hub: nothing queued, nobody connected, ids from 1.
    pub fn new() -> (r: IpcContext)
        ensures
            r@ == init_hub(),
            hub_wf(r@),
    {
        let r = IpcContext { messages: Vec::new(), connections: Vec::new(), next_client_id: 1 };
        proof {
            assert(r@.queue =~= init_hub().queue);
            assert(r@.conns =~= init_hub().conns);
            assert(r@ == init_hub());
        }
        r
    }

    /// Enqueue `message` onto the outbound queue. Returns immediately; the
    /// text is delivered by the next broadcast tick.
    pub fn send(&mut self, message: String)
        ensures
            final(self)@ == hub_step(old(self)@, HubOp::Send(message@)),
    {
        let ghost pre = self@;
        self.messages.push(message);
        proof {
            assert(self@.queue =~= hub_step(pre, HubOp::Send(message@)).queue);
            assert(self@ == hub_step(pre, HubOp::Send(message@)));
        }
    }

    /// Whether the id counter is exhausted, so that no further connection can
    /// be accepted.
    pub fn at_id_capacity(&self) -> (r: bool)
        ensures
            r == (self@.next_id == u32::MAX),
    {
        self.next_client_id == u32::MAX
    }

    /// Accept one connection: issue the next client id, add the connection to
    /// the broadcast set, and return the id with the `Connected` event to
    /// emit for it. A `Connected` event carries an empty payload.
    pub fn accept_connection(&mut self) -> (r: (u32, Message))
        requires
            old(self)@.next_id < u32::MAX,
        ensures
            final(self)@ == hub_step(old(self)@, HubOp::Accept),
            r.0 as int == old(self)@.next_id,
            r.1.client_id == r.0,
            r.1.kind == MessageType::Connected,
            r.1.message@.len() == 0,
    {
        let client_id = self.next_client_id;
        self.next_client_id = self.next_client_id + 1;
        self.connections.push(client_id);
        let event = Message { client_id, kind: MessageType::Connected, message: String::new() };
        (client_id, event)
    }

    /// One broadcast tick: drain the whole queue and return the writes to
    /// perform, every queued text (oldest first) to every live connection in
    /// connection-set order. The caller performs the writes and ignores
    /// per-write failures.
    pub fn broadcast_tick(&mut self) -> (r: Vec<Delivery>)
        ensures
            final(self)@ == hub_step(old(self)@, HubOp::Tick),
            plan_view(r@) == broadcast_plan(old(self)@.queue, old(self)@.conns),
    {
        let ghost pre = self@;
        let mut plan: Vec<Delivery> = Vec::new();
        let mut m: usize = 0;
        while m < self.messages.len()
            invariant
                pre == old(self)@,
                m <= self.messages.len(),
                self@ == pre,
                plan_view(plan@) == broadcast_plan(pre.queue.take(m as int), pre.conns),
            decreases self.messages.len() - m,
        {
            let ghost plan_before_row = plan_view(plan@);
            let mut j: usize = 0;
            while j < self.connections.len()
                invariant
                    pre == old(self)@,
                    m < self.messages.len(),
                    j <= self.connections.len(),
                    self@ == pre,
                    plan_view(plan@) == plan_before_row + row(
                        pre.conns.take(j as int),
                        pre.queue[m as int],
                    ),
                decreases self.connections.len() - j,
            {
                let ghost plan_pre = plan@;
                let d = Delivery {
                    client_id: self.connections[j],
                    message: self.messages[m].clone(),
                };
                proof {
                    assert(d.message@ == pre.queue[m as int]);
                    assert(d.client_id == pre.conns[j as int]);
                }
                plan.push(d);
                j = j + 1;
                proof {
                    let t = pre.queue[m as int];
                    let cj = pre.conns.take(j as int);
                    let prev_row = row(pre.conns.take(j - 1), t);
                    assert(cj.drop_last() =~= pre.conns.take(j - 1));
                    assert(cj.last() == pre.conns[j - 1]);
                    assert(row(cj, t) == prev_row + seq![(pre.conns[j - 1], t)]);
                    lemma_plan_view_push(plan_pre, d);
                    assert(plan_view(plan@) == (plan_before_row + prev_row).push(
                        (pre.conns[j - 1], t),
                    ));
                    assert((plan_before_row + prev_row).push((pre.conns[j - 1], t)) =~= plan_before_row
                        + (prev_row + seq![(pre.conns[j - 1], t)]));
                }
            }
            m = m + 1;
            proof {
                assert(pre.conns.take(pre.conns.len() as int) =~= pre.conns);
                let qm = pre.queue.take(m as int);
                assert(qm.drop_last() =~= pre.queue.take(m - 1));
                assert(qm.last() == pre.queue[m - 1]);
                assert(plan_view(plan@) == broadcast_plan(qm, pre.conns));
            }
        }
        self.messages.clear();
        proof {
            assert(pre.queue.take(pre.queue.len() as int) =~= pre.queue);
            assert(self@.queue =~= hub_step(pre, HubOp::Tick).queue);
            assert(self@ == hub_step(pre, HubOp::Tick));
        }
        plan
    }

    /// Prune the connection holding `client_id` from the broadcast set. The
    /// hub does this lazily, on the write-failure or reader-closure path, not
    /// synchronously with the peer's disconnect.
    pub fn remove_connection(&mut self, client_id: u32)
        ensures
            final(self)@ == hub_step(old(self)@, HubOp::Prune(client_id)),
    {
        let ghost pre = self@;
        let mut i: usize = 0;
        while i < self.connections.len()
            invariant
                pre == old(self)@,
                i <= self.connections.len(),
                self@ == pre,
                forall|j: int| 0 <= j < i ==> pre.conns[j] != client_id,
            decreases self.connections.len() - i,
        {
            if self.connections[i] == client_id {
                proof {
                    assert(pre.conns[i as int] == client_id);
                    assert(pre.conns.contains(client_id));
                    pre.conns.index_of_first_ensures(client_id);
                    let idx = pre.conns.index_of_first(client_id)->Some_0;
                    assert(pre.conns[idx] == client_id);
                    assert(idx == i as int);
                }
                self.connections.remove(i);
                proof {
                    assert(self@.conns == prune_conns(pre.conns, client_id));
                    assert(self@ == hub_step(pre, HubOp::Prune(client_id)));
                }
                return ;
            }
            i = i + 1;
        }
        proof {
            assert(forall|j: int| 0 <= j < pre.conns.len() ==> pre.conns[j] != client_id);
            assert(!pre.conns.contains(client_id));
            pre.conns.index_of_first_ensures(client_id);
            assert(pre.conns.index_of_first(client_id) is None);
            assert(self@ == hub_step(pre, HubOp::Prune(client_id)));
        }
    }
}

/// What one socket read of a connection's reader loop yielded.
pub enum ReadOutcome {
    /// The bytes of one non-empty read.
    Data(Vec<u8>),
    /// A zero-length read: the peer closed the stream.
    Closed,
    /// A read error.
    Failed,
}

/// What the reader loop does with one read outcome.
pub enum ReaderStep {
    /// Emit this `Message` event and keep reading.
    Deliver(Message),
    /// Emit this `Disconnected` event and stop reading.
    Disconnected(Message),
    /// Malformed UTF-8: stop reading, fatal for this connection only.
    Fatal,
}

/// Turn one socket read of client `client_id` into the reader loop's step.
/// Each non-empty read is forwarded as one event with the decoded text of
/// exactly the bytes read; a zero-length read or read error is a
/// disconnection, whose event carries an empty payload; malformed UTF-8 ends
/// the reader loop.
pub fn read_event(client_id: u32, outcome: ReadOutcome) -> (r: ReaderStep)
    ensures
        (match outcome {
            ReadOutcome::Data(b) => if b@.len() == 0 {
                r matches ReaderStep::Disconnected(m) && m.client_id == client_id && m.kind
                    == MessageType::Disconnected && m.message@.len() == 0
            } else if valid_utf8(b@) {
                r matches ReaderStep::Deliver(m) && m.client_id == client_id && m.kind
                    == MessageType::Message && m.message@ == decode_utf8(b@)
            } else {
                r is Fatal
            },
            ReadOutcome::Closed | ReadOutcome::Failed => {
                r matches ReaderStep::Disconnected(m) && m.client_id == client_id && m.kind
                    == MessageType::Disconnected && m.message@.len() == 0
            },
        }),
{
    match outcome {
        ReadOutcome::Data(bytes) => {
            if bytes.len() == 0 {
                ReaderStep::Disconnected(disconnected_message(client_id))
            } else {
                match string_from_utf8(bytes) {
                    Some(text) => ReaderStep::Deliver(Message {
                        client_id,
                        kind: MessageType::Message,
                        message: text,
                    }),
                    None => ReaderStep::Fatal,
                }
            }
        },
        ReadOutcome::Closed | ReadOutcome::Failed => {
            ReaderStep::Disconnected(disconnected_message(client_id))
        },
    }
}

/// The `Disconnected` event for client `client_id`, with its empty payload.
fn disconnected_message(client_id: u32) -> (r: Message)
    ensures
        r.client_id == client_id,
        r.kind == MessageType::Disconnected,
        r.message@.len() == 0,
{
    Message { client_id, kind: MessageType::Disconnected, message: String::new() }
}

/// Reserved shutdown path. Shutting the hub down is not implemented: the
/// process's exit is the only supported shutdown, and this call is a no-op
/// that always succeeds.
pub fn stop() -> (r: Result<(), HubError>)
    ensures
        r is Ok,
{
    Ok(())
}

} // verus!
