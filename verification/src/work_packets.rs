//! The bridge between the push-style edge visitor the enumerator drives and
//! the pull-style buffered work packets the collector's scheduler consumes.
//!
//! One buffer of a fixed target capacity is in flight at a time.  Each edge is
//! appended to it; the moment it reaches capacity it is handed off as a full
//! work packet and a fresh buffer takes its place.  When the caller signals
//! that no more edges are coming, a non-empty in-flight buffer is handed off
//! partially filled.  A packet is handed off exactly once and never reused.

use vstd::prelude::*;

verus! {

/// Target capacity of one work packet, in edges.
pub const WORK_PACKET_CAPACITY: usize = 4096;

/// The view of one sequence of edge addresses as mathematical integers.
pub open spec fn addrs_of(s: Seq<usize>) -> Seq<int> {
    s.map_values(|e: usize| e as int)
}

/// What one `visit_edge` call does to the packets handed off so far and the
/// in-flight buffer: append the edge, and hand the buffer off if that fills
/// it.
pub open spec fn bridge_step(cap: int, packets: Seq<Seq<int>>, in_flight: Seq<int>, e: int) -> (
    Seq<Seq<int>>,
    Seq<int>,
) {
    if in_flight.len() + 1 == cap {
        (packets.push(in_flight.push(e)), Seq::empty())
    } else {
        (packets, in_flight.push(e))
    }
}

/// The bridge state after a whole sequence of edges has been visited.
pub open spec fn bridge_feed(
    cap: int,
    packets: Seq<Seq<int>>,
    in_flight: Seq<int>,
    edges: Seq<int>,
) -> (Seq<Seq<int>>, Seq<int>)
    decreases edges.len(),
{
    if edges.len() == 0 {
        (packets, in_flight)
    } else {
        let (p, c) = bridge_step(cap, packets, in_flight, edges[0]);
        bridge_feed(cap, p, c, edges.drop_first())
    }
}

/// Feeding a concatenation of edges is feeding the first part and then the
/// second.
proof fn lemma_feed_append(
    cap: int,
    packets: Seq<Seq<int>>,
    in_flight: Seq<int>,
    first: Seq<int>,
    second: Seq<int>,
)
    ensures
        bridge_feed(cap, packets, in_flight, first + second) == {
            let (p, c) = bridge_feed(cap, packets, in_flight, first);
            bridge_feed(cap, p, c, second)
        },
    decreases first.len(),
{
    if first.len() == 0 {
        assert(first + second =~= second);
    } else {
        assert((first + second)[0] == first[0]);
        assert((first + second).drop_first() =~= first.drop_first() + second);
        let (p, c) = bridge_step(cap, packets, in_flight, first[0]);
        lemma_feed_append(cap, p, c, first.drop_first(), second);
    }
}

/// While the in-flight buffer has room for every remaining edge, feeding only
/// appends to it: no packet is handed off.
proof fn lemma_feed_under_capacity(
    cap: int,
    packets: Seq<Seq<int>>,
    in_flight: Seq<int>,
    edges: Seq<int>,
)
    requires
        in_flight.len() + edges.len() < cap,
    ensures
        bridge_feed(cap, packets, in_flight, edges) == (packets, in_flight + edges),
    decreases edges.len(),
{
    if edges.len() == 0 {
        assert(in_flight + edges =~= in_flight);
    } else {
        assert(in_flight.len() + 1 < cap);
        lemma_feed_under_capacity(cap, packets, in_flight.push(edges[0]), edges.drop_first());
        assert(in_flight.push(edges[0]) + edges.drop_first() =~= in_flight + edges);
    }
}

/// Buffer handoff: feeding exactly one edge more than the packet capacity
/// into a fresh bridge hands off exactly one full packet — the first `cap`
/// edges — and retains exactly the last edge in the new in-flight buffer.
pub proof fn lemma_capacity_plus_one_handoff(cap: int, edges: Seq<int>)
    requires
        2 <= cap,
        edges.len() == cap + 1,
    ensures
        ({
            let (packets, in_flight) = bridge_feed(
                cap,
                Seq::empty(),
                Seq::empty(),
                edges,
            );
            packets == seq![edges.take(cap)] && in_flight == seq![edges[cap]]
        }),
{
    let head = edges.take(cap - 1);
    let tail = edges.skip(cap - 1);
    assert(edges =~= head + tail);
    lemma_feed_append(cap, Seq::empty(), Seq::empty(), head, tail);
    lemma_feed_under_capacity(cap, Seq::empty(), Seq::empty(), head);
    assert(Seq::<int>::empty() + head =~= head);
    // The next edge fills the buffer: one full packet is handed off.
    assert(tail[0] == edges[cap - 1]);
    assert(head.push(edges[cap - 1]) =~= edges.take(cap));
    let (p1, c1) = bridge_step(cap, Seq::empty(), head, tail[0]);
    assert(p1 =~= seq![edges.take(cap)]);
    assert(c1 =~= Seq::<int>::empty());
    // The final edge lands in the fresh in-flight buffer.
    assert(tail.len() == 2);
    assert(tail.drop_first() =~= seq![edges[cap]]);
    let (p2, c2) = bridge_step(cap, p1, c1, edges[cap]);
    assert(p2 == p1);
    assert(c2 =~= seq![edges[cap]]);
    assert(tail.drop_first()[0] == edges[cap]);
    assert(tail.drop_first().drop_first() =~= Seq::<int>::empty());
    assert(bridge_feed(cap, p2, c2, tail.drop_first().drop_first()) == (p2, c2));
    assert(bridge_feed(cap, p1, c1, tail.drop_first()) == (p2, c2));
    assert(bridge_feed(cap, Seq::empty(), head, tail) == (p2, c2));
}

/// Batches edge addresses into work packets of a fixed target capacity.
pub struct WorkPacketBridge {
    capacity: usize,
    in_flight: Vec<usize>,
    handed: Vec<Vec<usize>>,
}

impl WorkPacketBridge {
    /// Target capacity the bridge was created with.
    pub closed spec fn cap(self) -> int {
        self.capacity as int
    }

    /// Edges of the buffer currently being filled.
    pub closed spec fn in_flight(self) -> Seq<int> {
        addrs_of(self.in_flight@)
    }

    /// Packets handed off so far, oldest first.
    pub closed spec fn packets(self) -> Seq<Seq<int>> {
        self.handed@.map_values(|p: Vec<usize>| addrs_of(p@))
    }

    /// Every edge this bridge has received, in visit order.
    pub open spec fn all_edges(self) -> Seq<int> {
        self.packets().flatten() + self.in_flight()
    }

    /// The in-flight buffer never reaches capacity without being handed off,
    /// and no handed packet is empty or over capacity.
    pub closed spec fn wf(self) -> bool {
        &&& 1 <= self.capacity
        &&& self.in_flight@.len() < self.capacity
        &&& forall|i: int|
            0 <= i < self.handed@.len() ==> 1 <= (#[trigger] self.handed@[i])@.len()
                <= self.capacity
    }

    /// A fresh bridge with one empty in-flight buffer and nothing handed off.
    pub fn new(capacity: usize) -> (bridge: Self)
        requires
            1 <= capacity,
        ensures
            bridge.wf(),
            bridge.cap() == capacity,
            bridge.packets() == Seq::<Seq<int>>::empty(),
            bridge.in_flight() == Seq::<int>::empty(),
    {
        let bridge = WorkPacketBridge { capacity, in_flight: Vec::new(), handed: Vec::new() };
        proof {
            assert(bridge.packets() =~= Seq::<Seq<int>>::empty());
            assert(bridge.in_flight() =~= Seq::<int>::empty());
        }
        bridge
    }

    /// Appends one edge; hands the buffer off as a packet if that fills it.
    pub fn visit_edge(&mut self, e: usize)
        requires
            old(self).wf(),
        ensures
            final(self).wf(),
            final(self).cap() == old(self).cap(),
            (final(self).packets(), final(self).in_flight()) == bridge_step(
                old(self).cap(),
                old(self).packets(),
                old(self).in_flight(),
                e as int,
            ),
            final(self).all_edges() == old(self).all_edges().push(e as int),
    {
        proof {
            old(self).in_flight@.lemma_push_map_commute(|x: usize| x as int, e);
        }
        self.in_flight.push(e);
        if self.in_flight.len() == self.capacity {
            let mut full: Vec<usize> = Vec::new();
            core::mem::swap(&mut self.in_flight, &mut full);
            let ghost full_view = addrs_of(full@);
            self.handed.push(full);
            proof {
                old(self).handed@.lemma_push_map_commute(|p: Vec<usize>| addrs_of(p@), full);
                assert(self.packets() =~= old(self).packets().push(full_view));
                assert(self.in_flight() =~= Seq::<int>::empty());
                self.lemma_all_edges_after_handoff(*old(self), e);
            }
        } else {
            proof {
                assert(self.packets() =~= old(self).packets());
                assert(self.all_edges() =~= old(self).all_edges().push(e as int));
            }
        }
    }

    proof fn lemma_all_edges_after_handoff(self, prev: Self, e: usize)
        requires
            self.packets() == prev.packets().push(prev.in_flight().push(e as int)),
            self.in_flight() == Seq::<int>::empty(),
        ensures
            self.all_edges() == prev.all_edges().push(e as int),
    {
        prev.packets().lemma_flatten_push(prev.in_flight().push(e as int));
        assert(self.all_edges() =~= prev.all_edges().push(e as int));
    }

    /// The caller signals that no more edges are coming: a non-empty in-flight
    /// buffer is handed off as a final, possibly partial, packet.
    pub fn flush(&mut self)
        requires
            old(self).wf(),
        ensures
            final(self).wf(),
            final(self).cap() == old(self).cap(),
            final(self).all_edges() == old(self).all_edges(),
            final(self).in_flight() == Seq::<int>::empty(),
            old(self).in_flight().len() == 0 ==> final(self).packets() == old(self).packets(),
            old(self).in_flight().len() > 0 ==> final(self).packets() == old(self).packets().push(
                old(self).in_flight(),
            ),
    {
        if self.in_flight.len() > 0 {
            let mut partial: Vec<usize> = Vec::new();
            core::mem::swap(&mut self.in_flight, &mut partial);
            let ghost partial_view = addrs_of(partial@);
            self.handed.push(partial);
            proof {
                old(self).handed@.lemma_push_map_commute(|p: Vec<usize>| addrs_of(p@), partial);
                assert(self.packets() =~= old(self).packets().push(partial_view));
                assert(self.in_flight() =~= Seq::<int>::empty());
                old(self).packets().lemma_flatten_push(old(self).in_flight());
                assert(self.all_edges() =~= old(self).all_edges());
            }
        } else {
            proof {
                assert(self.in_flight() =~= Seq::<int>::empty());
                assert(self.all_edges() =~= old(self).all_edges());
            }
        }
    }

    /// Transfers ownership of every handed-off packet to the caller, exactly
    /// once: the bridge keeps nothing of them.
    pub fn take_packets(&mut self) -> (packets: Vec<Vec<usize>>)
        requires
            old(self).wf(),
        ensures
            final(self).wf(),
            final(self).cap() == old(self).cap(),
            packets@.map_values(|p: Vec<usize>| addrs_of(p@)) == old(self).packets(),
            final(self).packets() == Seq::<Seq<int>>::empty(),
            final(self).in_flight() == old(self).in_flight(),
    {
        let mut taken: Vec<Vec<usize>> = Vec::new();
        core::mem::swap(&mut self.handed, &mut taken);
        proof {
            assert(self.packets() =~= Seq::<Seq<int>>::empty());
        }
        taken
    }

    /// Number of packets handed off so far.
    pub fn packet_count(&self) -> (n: usize)
        ensures
            n == self.packets().len(),
    {
        self.handed.len()
    }

    /// Read access to one handed-off packet.
    pub fn packet(&self, i: usize) -> (p: &Vec<usize>)
        requires
            i < self.packets().len(),
        ensures
            addrs_of(p@) == self.packets()[i as int],
    {
        &self.handed[i]
    }

    /// Read access to the buffer currently being filled.
    pub fn in_flight_edges(&self) -> (edges: &Vec<usize>)
        ensures
            addrs_of(edges@) == self.in_flight(),
    {
        &self.in_flight
    }
}

} // verus!
