use vstd::prelude::*;

use crate::protocol::RelayMessage;
use crate::relay::routed_to;

verus! {

/// What one delivery queue becomes when a message is published into it
/// under a bounded capacity: the message is appended, and when the queue
/// is already full the oldest pending message is dropped first. Delivery
/// is best-effort and lossy under backpressure by design.
pub open spec fn push_bounded(
    q: Seq<(Seq<char>, Seq<u8>)>,
    m: (Seq<char>, Seq<u8>),
    cap: nat,
) -> Seq<(Seq<char>, Seq<u8>)> {
    if q.len() < cap {
        q.push(m)
    } else {
        q.skip(1).push(m)
    }
}

/// The messages of a backlog that are addressed to this session, in
/// order and verbatim: what one session's outbound loop forwards of
/// that backlog, everything else being consumed and dropped.
pub open spec fn forwarded_of(
    q: Seq<(Seq<char>, Seq<u8>)>,
    session_id: Seq<char>,
) -> Seq<(Seq<char>, Seq<u8>)>
    decreases q.len(),
{
    if q.len() == 0 {
        Seq::empty()
    } else {
        let rest = forwarded_of(q.drop_first(), session_id);
        if routed_to(q[0].0, session_id) {
            seq![q[0]] + rest
        } else {
            rest
        }
    }
}

/// Routing correctness over a whole backlog: whatever a session's
/// backlog held, everything its outbound loop forwards is addressed to
/// exactly that session's identity.
pub proof fn lemma_forwarded_only_matching(q: Seq<(Seq<char>, Seq<u8>)>, session_id: Seq<char>)
    ensures
        forall|j: int|
            0 <= j < forwarded_of(q, session_id).len() ==> (#[trigger] forwarded_of(q, session_id)[j]).0
                == session_id,
    decreases q.len(),
{
    if q.len() > 0 {
        lemma_forwarded_only_matching(q.drop_first(), session_id);
        let fs = forwarded_of(q, session_id);
        let rest = forwarded_of(q.drop_first(), session_id);
        assert forall|j: int| 0 <= j < fs.len() implies (#[trigger] fs[j]).0 == session_id by {
            if routed_to(q[0].0, session_id) {
                if j == 0 {
                    assert(fs[0] == q[0]);
                } else {
                    assert(fs[j] == rest[j - 1]);
                }
            } else {
                assert(fs[j] == rest[j]);
            }
        }
    }
}

/// In-process multi-subscriber fan-out channel for addressed ciphertext.
/// Every published message is delivered to every current subscriber, each
/// subscriber seeing its own deliveries in FIFO order through a bounded
/// queue; there is no ordering guarantee across subscribers and no
/// redelivery.
pub struct BroadcastBus {
    capacity: usize,
    queues: Vec<Vec<RelayMessage>>,
}

impl BroadcastBus {
    /// The pending deliveries of every subscriber, oldest first.
    pub closed spec fn queues(&self) -> Seq<Seq<(Seq<char>, Seq<u8>)>> {
        self.queues.deep_view()
    }

    /// The bound on each subscriber's backlog.
    pub closed spec fn capacity(&self) -> nat {
        self.capacity as nat
    }

    /// Internal consistency: a positive capacity that no backlog exceeds.
    pub closed spec fn wf(&self) -> bool {
        &&& self.capacity >= 1
        &&& forall|i: int| 0 <= i < self.queues().len() ==> self.queues()[i].len() <= self.capacity()
    }

    /// A bus with no subscribers yet.
    pub fn new(capacity: usize) -> (r: BroadcastBus)
        requires
            capacity >= 1,
        ensures
            r.wf(),
            r.capacity() == capacity as nat,
            r.queues() == Seq::<Seq<(Seq<char>, Seq<u8>)>>::empty(),
    {
        let r = BroadcastBus { capacity, queues: Vec::new() };
        proof {
            assert(r.queues() =~~= Seq::<Seq<(Seq<char>, Seq<u8>)>>::empty());
        }
        r
    }

    /// Add a subscriber; its handle is its index. It starts with an empty
    /// backlog and sees only messages published from now on.
    pub fn subscribe(&mut self) -> (idx: usize)
        requires
            old(self).wf(),
        ensures
            final(self).wf(),
            final(self).capacity() == old(self).capacity(),
            idx == old(self).queues().len(),
            final(self).queues() == old(self).queues().push(Seq::<(Seq<char>, Seq<u8>)>::empty()),
    {
        let idx = self.queues.len();
        self.queues.push(Vec::new());
        proof {
            assert(self.queues() =~~= old(self).queues().push(
                Seq::<(Seq<char>, Seq<u8>)>::empty(),
            ));
        }
        idx
    }

    /// How many subscribers the bus has.
    pub fn subscriber_count(&self) -> (n: usize)
        ensures
            n == self.queues().len(),
    {
        self.queues.len()
    }

    /// Publish a message: it is appended to every current subscriber's
    /// backlog, dropping the subscriber's oldest pending message where the
    /// backlog is full. Publishing never fails, whether or not any
    /// subscriber will ever read the message.
    pub fn publish(&mut self, m: &RelayMessage)
        requires
            old(self).wf(),
        ensures
            final(self).wf(),
            final(self).capacity() == old(self).capacity(),
            final(self).queues().len() == old(self).queues().len(),
            forall|i: int|
                0 <= i < old(self).queues().len() ==> final(self).queues()[i] == push_bounded(
                    old(self).queues()[i],
                    m@,
                    old(self).capacity(),
                ),
    {
        let mut i: usize = 0;
        let n = self.queues.len();
        while i < n
            invariant
                n == self.queues().len(),
                n == old(self).queues().len(),
                0 <= i <= n,
                self.capacity == old(self).capacity,
                self.capacity >= 1,
                forall|j: int|
                    0 <= j < i ==> self.queues()[j] == push_bounded(
                        old(self).queues()[j],
                        m@,
                        old(self).capacity(),
                    ),
                forall|j: int| i <= j < n ==> self.queues()[j] == old(self).queues()[j],
                forall|j: int| 0 <= j < n ==> self.queues()[j].len() <= self.capacity(),
            decreases n - i,
        {
            let ghost prev = self.queues();
            let q = &mut self.queues[i];
            if q.len() >= self.capacity {
                q.remove(0);
            }
            q.push(m.duplicate());
            proof {
                assert(self.queues()[i as int] =~~= push_bounded(
                    old(self).queues()[i as int],
                    m@,
                    old(self).capacity(),
                ));
                assert forall|j: int| 0 <= j < n && j != i implies self.queues()[j] == prev[j] by {
                    assert(self.queues()[j] =~~= prev[j]);
                }
                assert(self.queues()[i as int].len() <= self.capacity());
                assert forall|j: int| 0 <= j < i + 1 implies self.queues()[j] == push_bounded(
                    old(self).queues()[j],
                    m@,
                    old(self).capacity(),
                ) by {
                    if j < i {
                        assert(self.queues()[j] == prev[j]);
                        assert(prev[j] == push_bounded(
                            old(self).queues()[j],
                            m@,
                            old(self).capacity(),
                        ));
                    }
                }
                assert forall|j: int| 0 <= j < n implies self.queues()[j].len() <= self.capacity()
                    by {
                    if j != i {
                        assert(self.queues()[j] == prev[j]);
                        assert(prev[j].len() <= self.capacity());
                    }
                }
            }
            i += 1;
        }
    }

    /// Take the oldest pending delivery of subscriber `idx`, if any.
    /// Deliveries come out in exactly the order they were published:
    /// per-subscriber FIFO.
    pub fn poll(&mut self, idx: usize) -> (r: Option<RelayMessage>)
        requires
            old(self).wf(),
            idx < old(self).queues().len(),
        ensures
            final(self).wf(),
            final(self).capacity() == old(self).capacity(),
            final(self).queues().len() == old(self).queues().len(),
            forall|j: int|
                0 <= j < old(self).queues().len() && j != idx ==> final(self).queues()[j] == old(
                    self,
                ).queues()[j],
            old(self).queues()[idx as int].len() == 0 ==> (r is None && final(self).queues()[
                idx as int
            ] == old(self).queues()[idx as int]),
            old(self).queues()[idx as int].len() > 0 ==> (r matches Some(m) && m@ == old(
                self,
            ).queues()[idx as int][0] && final(self).queues()[idx as int] == old(self).queues()[
                idx as int
            ].skip(1)),
    {
        let ghost prev = self.queues();
        let q = &mut self.queues[idx];
        if q.len() == 0 {
            proof {
                assert(self.queues() =~~= prev);
            }
            None
        } else {
            let m = q.remove(0);
            proof {
                assert(self.queues()[idx as int] =~~= prev[idx as int].skip(1));
                assert forall|j: int| 0 <= j < prev.len() && j != idx implies self.queues()[j]
                    == prev[j] by {
                    assert(self.queues()[j] =~~= prev[j]);
                }
                assert(self.capacity() == old(self).capacity());
                assert(prev == old(self).queues());
                assert forall|j: int| 0 <= j < self.queues().len() implies self.queues()[j].len()
                    <= self.capacity() by {
                    assert(old(self).queues()[j].len() <= old(self).capacity());
                    if j == idx {
                        assert(self.queues()[j].len() <= prev[j].len());
                    } else {
                        assert(self.queues()[j] == prev[j]);
                    }
                }
            }
            Some(m)
        }
    }
}

/// A relay with its bus and the identity each subscribed session claimed
/// at handshake. The identity of a session is immutable once registered;
/// the outbound step of session `i` forwards exactly the messages
/// addressed to `ids[i]`.
pub struct Relay {
    bus: BroadcastBus,
    ids: Vec<String>,
}

impl Relay {
    /// The identities of the registered sessions, by subscriber index.
    pub closed spec fn ids(&self) -> Seq<Seq<char>> {
        self.ids.deep_view()
    }

    /// The pending deliveries of every session.
    pub closed spec fn queues(&self) -> Seq<Seq<(Seq<char>, Seq<u8>)>> {
        self.bus.queues()
    }

    /// The bound on each session's backlog.
    pub closed spec fn capacity(&self) -> nat {
        self.bus.capacity()
    }

    /// One identity per subscription, over a consistent bus.
    pub closed spec fn wf(&self) -> bool {
        &&& self.bus.wf()
        &&& self.ids().len() == self.queues().len()
    }

    /// A relay with no sessions.
    pub fn new(capacity: usize) -> (r: Relay)
        requires
            capacity >= 1,
        ensures
            r.wf(),
            r.capacity() == capacity as nat,
            r.ids() == Seq::<Seq<char>>::empty(),
            r.queues() == Seq::<Seq<(Seq<char>, Seq<u8>)>>::empty(),
    {
        let r = Relay { bus: BroadcastBus::new(capacity), ids: Vec::new() };
        proof {
            assert(r.ids() =~= Seq::<Seq<char>>::empty());
        }
        r
    }

    /// Register a session after a successful handshake: it subscribes to
    /// the bus under the identity it claimed. The identity is never
    /// validated against any registry: anyone may claim any identity, and
    /// only the holder of the matching private key can read what is
    /// forwarded.
    pub fn register(&mut self, id: String) -> (idx: usize)
        requires
            old(self).wf(),
        ensures
            final(self).wf(),
            final(self).capacity() == old(self).capacity(),
            idx == old(self).ids().len(),
            final(self).ids() == old(self).ids().push(id@),
            final(self).queues() == old(self).queues().push(Seq::<(Seq<char>, Seq<u8>)>::empty()),
    {
        let idx = self.bus.subscribe();
        self.ids.push(id);
        proof {
            assert(self.ids() =~= old(self).ids().push(self.ids@[idx as int]@));
        }
        idx
    }

    /// Publish an addressed message: every session's backlog receives it,
    /// whether or not any session holds the target identity. The publisher
    /// gets no error back; a message nobody will forward is simply dropped
    /// at each session's outbound filter.
    pub fn publish(&mut self, m: &RelayMessage)
        requires
            old(self).wf(),
        ensures
            final(self).wf(),
            final(self).capacity() == old(self).capacity(),
            final(self).ids() == old(self).ids(),
            final(self).queues().len() == old(self).queues().len(),
            forall|i: int|
                0 <= i < old(self).queues().len() ==> final(self).queues()[i] == push_bounded(
                    old(self).queues()[i],
                    m@,
                    old(self).capacity(),
                ),
    {
        self.bus.publish(m);
    }

    /// A session's whole outbound loop over its pending backlog: take
    /// every delivery in order and forward exactly those addressed to
    /// this session's identity, verbatim; everything else is consumed
    /// and dropped. What goes to the socket is exactly the backlog
    /// filtered by the session's identity.
    pub fn drain_session(&mut self, idx: usize) -> (r: Vec<RelayMessage>)
        requires
            old(self).wf(),
            idx < old(self).ids().len(),
        ensures
            final(self).wf(),
            final(self).capacity() == old(self).capacity(),
            final(self).ids() == old(self).ids(),
            final(self).queues().len() == old(self).queues().len(),
            forall|j: int|
                0 <= j < old(self).queues().len() && j != idx ==> final(self).queues()[j] == old(
                    self,
                ).queues()[j],
            final(self).queues()[idx as int] == Seq::<(Seq<char>, Seq<u8>)>::empty(),
            r.deep_view() == forwarded_of(
                old(self).queues()[idx as int],
                old(self).ids()[idx as int],
            ),
    {
        let ghost sid = old(self).ids()[idx as int];
        let ghost total = forwarded_of(old(self).queues()[idx as int], sid);
        let mut out: Vec<RelayMessage> = Vec::new();
        proof {
            assert(out.deep_view() + forwarded_of(self.queues()[idx as int], sid) =~= total);
        }
        loop
            invariant
                self.wf(),
                idx < self.ids().len(),
                self.capacity() == old(self).capacity(),
                self.ids() == old(self).ids(),
                self.queues().len() == old(self).queues().len(),
                forall|j: int|
                    0 <= j < old(self).queues().len() && j != idx ==> self.queues()[j] == old(
                        self,
                    ).queues()[j],
                sid == old(self).ids()[idx as int],
                total == forwarded_of(old(self).queues()[idx as int], sid),
                out.deep_view() + forwarded_of(self.queues()[idx as int], sid) == total,
            ensures
                self.wf(),
                self.capacity() == old(self).capacity(),
                self.ids() == old(self).ids(),
                self.queues().len() == old(self).queues().len(),
                forall|j: int|
                    0 <= j < old(self).queues().len() && j != idx ==> self.queues()[j] == old(
                        self,
                    ).queues()[j],
                self.queues()[idx as int].len() == 0,
                out.deep_view() == total,
            decreases self.queues()[idx as int].len(),
        {
            let ghost q0 = self.queues()[idx as int];
            let polled = self.bus.poll(idx);
            let m = match polled {
                None => {
                    proof {
                        assert(forwarded_of(q0, sid) =~= Seq::<(Seq<char>, Seq<u8>)>::empty());
                        assert(out.deep_view() + forwarded_of(q0, sid) =~= out.deep_view());
                    }
                    break ;
                },
                Some(m) => m,
            };
            let ghost q1 = self.queues()[idx as int];
            proof {
                assert(q0.drop_first() =~= q1);
                assert(self.ids()[idx as int] == self.ids@[idx as int]@);
            }
            if crate::relay::should_forward(&self.ids[idx], &m) {
                let ghost mv = m@;
                let ghost outp = out.deep_view();
                out.push(m);
                proof {
                    assert(out.deep_view() =~= outp.push(mv));
                    assert(forwarded_of(q0, sid) == seq![mv] + forwarded_of(q1, sid));
                    assert(outp.push(mv) + forwarded_of(q1, sid) =~= outp + forwarded_of(q0, sid));
                }
            } else {
                proof {
                    assert(forwarded_of(q0, sid) == forwarded_of(q1, sid));
                }
            }
        }
        proof {
            assert(self.queues()[idx as int] =~= Seq::<(Seq<char>, Seq<u8>)>::empty());
        }
        out
    }

    /// One outbound step of session `idx`: take its oldest pending
    /// delivery and forward it exactly when it is addressed to this
    /// session's identity; anything else is consumed and dropped.
    pub fn outbound_step(&mut self, idx: usize) -> (r: Option<RelayMessage>)
        requires
            old(self).wf(),
            idx < old(self).ids().len(),
        ensures
            final(self).wf(),
            final(self).ids() == old(self).ids(),
            final(self).queues().len() == old(self).queues().len(),
            forall|j: int|
                0 <= j < old(self).queues().len() && j != idx ==> final(self).queues()[j] == old(
                    self,
                ).queues()[j],
            old(self).queues()[idx as int].len() == 0 ==> (r is None && final(self).queues()[
                idx as int
            ] == old(self).queues()[idx as int]),
            old(self).queues()[idx as int].len() > 0 ==> final(self).queues()[idx as int] == old(
                self,
            ).queues()[idx as int].skip(1),
            r matches Some(m) ==> (old(self).queues()[idx as int].len() > 0 && m@ == old(
                self,
            ).queues()[idx as int][0] && routed_to(m@.0, old(self).ids()[idx as int])),
            (old(self).queues()[idx as int].len() > 0 && routed_to(
                old(self).queues()[idx as int][0].0,
                old(self).ids()[idx as int],
            )) ==> r is Some,
    {
        let polled = self.bus.poll(idx);
        match polled {
            None => None,
            Some(m) => crate::relay::outbound_step(&self.ids[idx], m),
        }
    }
}

} // verus!
