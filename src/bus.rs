use vstd::prelude::*;
use crate::event::{EventView, ProgressEvent};

verus! {

/// How many events each subscriber can fall behind before it misses some.
pub const BUS_CAPACITY: usize = 100;

/// The broadcast channel of progress events. Every subscriber has its own
/// cursor into one shared publish order; the last `capacity` events are kept.
pub struct ProgressBus {
    retained: Vec<ProgressEvent>,
    published: u64,
    capacity: usize,
    history: Ghost<Seq<EventView>>,
}

/// Everything ever published, in order, and how many events are kept.
pub struct BusView {
    pub history: Seq<EventView>,
    pub capacity: nat,
}

/// A receiving handle: the position of the next event it reads.
pub struct Subscription {
    next: u64,
}

/// What one receive gives.
pub enum Received {
    Event(ProgressEvent),
    /// The subscriber fell behind and this many events were dropped for it.
    Lagged(u64),
    /// Nothing new has been published.
    Empty,
}

pub enum ReceivedView {
    Event(EventView),
    Lagged(nat),
    Empty,
}

impl View for ProgressBus {
    type V = BusView;

    closed spec fn view(&self) -> BusView {
        BusView { history: self.history@, capacity: self.capacity as nat }
    }
}

impl View for Subscription {
    type V = nat;

    closed spec fn view(&self) -> nat {
        self.next as nat
    }
}

impl View for Received {
    type V = ReceivedView;

    open spec fn view(&self) -> ReceivedView {
        match self {
            Received::Event(e) => ReceivedView::Event(e@),
            Received::Lagged(n) => ReceivedView::Lagged(*n as nat),
            Received::Empty => ReceivedView::Empty,
        }
    }
}

/// The position of the oldest event still kept.
pub open spec fn oldest(b: BusView) -> nat {
    if b.history.len() > b.capacity {
        (b.history.len() - b.capacity) as nat
    } else {
        0
    }
}

/// One receive by a subscriber at `pos`: what it gets, and where it stands
/// afterwards. A subscriber behind the oldest kept event is told how many it
/// missed and moves to the oldest kept one.
pub open spec fn receive_spec(b: BusView, pos: nat) -> (ReceivedView, nat) {
    if pos >= b.history.len() {
        (ReceivedView::Empty, pos)
    } else if pos < oldest(b) {
        (ReceivedView::Lagged((oldest(b) - pos) as nat), oldest(b))
    } else {
        (ReceivedView::Event(b.history[pos as int]), pos + 1)
    }
}

/// What `k` receives in a row give, starting at `pos`.
pub open spec fn drain(b: BusView, pos: nat, k: nat) -> Seq<ReceivedView>
    decreases k,
{
    if k == 0 {
        Seq::empty()
    } else {
        let (r, p) = receive_spec(b, pos);
        seq![r] + drain(b, p, (k - 1) as nat)
    }
}

/// Events as a subscriber receives them.
pub open spec fn as_received(s: Seq<EventView>) -> Seq<ReceivedView> {
    s.map_values(|e: EventView| ReceivedView::Event(e))
}

impl ProgressBus {
    pub closed spec fn wf(&self) -> bool {
        &&& self.capacity == BUS_CAPACITY
        &&& self.history@.len() == self.published
        &&& self.retained@.len() == if self.published > self.capacity {
            self.capacity as nat
        } else {
            self.published as nat
        }
        &&& forall|i: int|
            0 <= i < self.retained@.len() ==> (#[trigger] self.retained@[i])@ == self.history@[(
            self.published - self.retained@.len()) + i]
    }

    /// An empty bus that keeps `BUS_CAPACITY` events for each subscriber.
    pub fn new() -> (r: Self)
        ensures
            r.wf(),
            r@.history.len() == 0,
            r@.capacity == BUS_CAPACITY,
    {
        ProgressBus {
            retained: Vec::new(),
            published: 0,
            capacity: BUS_CAPACITY,
            history: Ghost(Seq::empty()),
        }
    }

    /// How many events have been published.
    pub fn published(&self) -> (r: u64)
        requires
            self.wf(),
        ensures
            r == self@.history.len(),
    {
        self.published
    }

    /// Appends an event to the publish order. It never blocks and never
    /// fails, whether or not anyone subscribes.
    pub fn publish(&mut self, event: ProgressEvent)
        requires
            old(self).wf(),
            old(self)@.history.len() < u64::MAX,
        ensures
            final(self).wf(),
            final(self)@.history == old(self)@.history.push(event@),
            final(self)@.capacity == BUS_CAPACITY,
    {
        let ghost e = event@;
        let ghost before = self.retained@;
        if self.retained.len() == self.capacity {
            self.retained.remove(0);
        }
        self.retained.push(event);
        self.published = self.published + 1;
        self.history = Ghost(self.history@.push(e));
        proof {
            let n = self.published as int;
            let len = self.retained@.len() as int;
            assert forall|i: int| 0 <= i < len implies (#[trigger] self.retained@[i])@
                == self.history@[(n - len) + i] by {
                if i < len - 1 {
                    if before.len() == self.capacity {
                        assert(self.retained@[i] == before[i + 1]);
                    } else {
                        assert(self.retained@[i] == before[i]);
                    }
                }
            }
        }
    }

    /// A new handle that sees only what is published from now on.
    pub fn subscribe(&self) -> (r: Subscription)
        requires
            self.wf(),
        ensures
            r@ == self@.history.len(),
    {
        Subscription { next: self.published }
    }

    /// Takes the next event for `sub`, or reports the gap it fell into, or
    /// that nothing new is there.
    pub fn try_receive(&self, sub: &mut Subscription) -> (r: Received)
        requires
            self.wf(),
        ensures
            (r@, final(sub)@) == receive_spec(self@, old(sub)@),
    {
        let total = self.published;
        let first = total - self.retained.len() as u64;
        let pos = sub.next;
        if pos >= total {
            Received::Empty
        } else if pos < first {
            sub.next = first;
            Received::Lagged(first - pos)
        } else {
            let e = self.retained[(pos - first) as usize].duplicate();
            sub.next = pos + 1;
            Received::Event(e)
        }
    }
}

/// Every bus keeps `BUS_CAPACITY` events for each subscriber, so the laws
/// below apply to it with that capacity.
pub proof fn lemma_bus_capacity(bus: &ProgressBus)
    requires
        bus.wf(),
    ensures
        bus@.capacity == BUS_CAPACITY,
{
}

/// Fan-out: a subscriber that has not fallen more than `capacity` events
/// behind receives exactly the events published since its position, in
/// publish order. Two subscribers made at the same moment therefore receive
/// the same sequence, and one made after some events receives none of them.
pub proof fn lemma_fan_out(b: BusView, pos: nat)
    requires
        b.capacity > 0,
        pos <= b.history.len(),
        b.history.len() - pos <= b.capacity,
    ensures
        drain(b, pos, (b.history.len() - pos) as nat) == as_received(
            b.history.subrange(pos as int, b.history.len() as int),
        ),
    decreases b.history.len() - pos,
{
    let n = b.history.len();
    if pos < n {
        lemma_fan_out(b, pos + 1);
        assert(as_received(b.history.subrange(pos as int, n as int)) =~= seq![
            ReceivedView::Event(b.history[pos as int]),
        ] + as_received(b.history.subrange(pos as int + 1, n as int)));
    } else {
        assert(as_received(b.history.subrange(pos as int, n as int)) =~= Seq::empty());
    }
}

/// Overrun: a subscriber more than `capacity` events behind is told on its
/// next receive how many it missed, and then receives the kept events in
/// order.
pub proof fn lemma_overrun_signalled(b: BusView, pos: nat)
    requires
        b.capacity > 0,
        pos + b.capacity < b.history.len(),
    ensures
        receive_spec(b, pos) == (
            ReceivedView::Lagged((b.history.len() - b.capacity - pos) as nat),
            (b.history.len() - b.capacity) as nat,
        ),
        drain(b, (b.history.len() - b.capacity) as nat, b.capacity) == as_received(
            b.history.subrange(b.history.len() - b.capacity, b.history.len() as int),
        ),
{
    lemma_fan_out(b, (b.history.len() - b.capacity) as nat);
}

/// No replay: however far behind it falls, a subscriber at `pos` (as made by
/// `subscribe`, the count published so far) only ever receives events
/// published at or after `pos`, never one from before it subscribed.
pub proof fn lemma_no_replay(b: BusView, pos: nat, k: nat)
    ensures
        forall|i: int|
            0 <= i < drain(b, pos, k).len() && (#[trigger] drain(b, pos, k)[i]) is Event ==> exists|
                j: int,
            |
                pos <= j < b.history.len() && drain(b, pos, k)[i]->Event_0 == b.history[j],
    decreases k,
{
    if k > 0 {
        let (r, p) = receive_spec(b, pos);
        lemma_no_replay(b, p, (k - 1) as nat);
        let d = drain(b, pos, k);
        let rest = drain(b, p, (k - 1) as nat);
        assert(d == seq![r] + rest);
        assert(p >= pos);
        assert forall|i: int| 0 <= i < d.len() && (#[trigger] d[i]) is Event implies exists|
            j: int,
        | pos <= j < b.history.len() && d[i]->Event_0 == b.history[j] by {
            if i == 0 {
                assert(d[0] == r);
                assert(pos <= pos < b.history.len() && d[i]->Event_0 == b.history[pos as int]);
            } else {
                assert(d[i] == rest[i - 1]);
                let j = choose|j: int| p <= j < b.history.len() && rest[i - 1]->Event_0 == b.history[j];
                assert(pos <= j < b.history.len() && d[i]->Event_0 == b.history[j]);
            }
        }
    }
}

/// Fan-out on a live bus: a subscriber at most `BUS_CAPACITY` events behind
/// receives exactly the events published since its position, in order; two
/// subscribers at the same position receive the same sequence.
pub proof fn lemma_bus_fan_out(bus: &ProgressBus, pos: nat)
    requires
        bus.wf(),
        pos <= bus@.history.len(),
        bus@.history.len() - pos <= BUS_CAPACITY,
    ensures
        drain(bus@, pos, (bus@.history.len() - pos) as nat) == as_received(
            bus@.history.subrange(pos as int, bus@.history.len() as int),
        ),
{
    lemma_fan_out(bus@, pos);
}

/// Overrun on a live bus: a subscriber more than `BUS_CAPACITY` events
/// behind is told how many it missed, then receives the last `BUS_CAPACITY`
/// events in order.
pub proof fn lemma_bus_overrun(bus: &ProgressBus, pos: nat)
    requires
        bus.wf(),
        pos + BUS_CAPACITY < bus@.history.len(),
    ensures
        receive_spec(bus@, pos) == (
            ReceivedView::Lagged((bus@.history.len() - BUS_CAPACITY - pos) as nat),
            (bus@.history.len() - BUS_CAPACITY) as nat,
        ),
        drain(bus@, (bus@.history.len() - BUS_CAPACITY) as nat, BUS_CAPACITY as nat)
            == as_received(
            bus@.history.subrange(bus@.history.len() - BUS_CAPACITY, bus@.history.len() as int),
        ),
{
    lemma_overrun_signalled(bus@, pos);
}

} // verus!
