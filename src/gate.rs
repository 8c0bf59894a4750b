//! A weighted admission gate with first-come, first-served grants.
//!
//! A gate is a state machine: each event (a new request, a release, a
//! cancelled wait) moves it to its next state and yields the leases that the
//! event let through, in arrival order. Whoever drives a gate hands each
//! granted lease to the task that waits for it.
use vstd::prelude::*;

verus! {

/// One acquisition, waiting or granted: the ticket it got on arrival and the
/// capacity units it takes.
#[derive(Clone, Copy, Debug, PartialEq, Eq)]
pub struct Request {
    pub ticket: u64,
    pub weight: usize,
}

/// The abstract state of a gate.
pub struct GateState {
    /// The identity that this gate stamps on its leases.
    pub id: u64,
    pub capacity: nat,
    /// Weight of the granted, not yet released leases.
    pub outstanding: nat,
    /// Requests not yet granted, oldest first.
    pub waiting: Seq<Request>,
    /// Granted leases, oldest first.
    pub held: Seq<Request>,
    /// The ticket the next request gets.
    pub next_ticket: nat,
}

/// Sum of the weights of `rs`.
pub open spec fn total_weight(rs: Seq<Request>) -> nat
    decreases rs.len(),
{
    if rs.len() == 0 {
        0
    } else {
        rs[0].weight as nat + total_weight(rs.drop_first())
    }
}

/// How many requests at the head of `q` are granted, one after the other, on a
/// gate of `capacity` that has `outstanding` units out: they are granted in
/// order while the next one fits, and the first that does not fit stops all
/// behind it.
pub open spec fn admit_count(outstanding: nat, capacity: nat, q: Seq<Request>) -> nat
    decreases q.len(),
{
    if q.len() == 0 {
        0
    } else if outstanding + q[0].weight <= capacity {
        1 + admit_count((outstanding + q[0].weight) as nat, capacity, q.drop_first())
    } else {
        0
    }
}

impl GateState {
    /// Every acquisition a gate knows of, in arrival order: granted ones
    /// first, since grants follow arrival.
    pub open spec fn arrivals(self) -> Seq<Request> {
        self.held + self.waiting
    }

    /// Everything a gate keeps true, except that grants may be pending.
    pub open spec fn consistent(self) -> bool {
        &&& self.capacity > 0
        &&& self.outstanding == total_weight(self.held)
        &&& self.outstanding <= self.capacity
        &&& self.next_ticket <= u64::MAX
        &&& forall|i: int|
            0 <= i < self.arrivals().len() ==> {
                &&& 1 <= #[trigger] self.arrivals()[i].weight <= self.capacity
                &&& self.arrivals()[i].ticket < self.next_ticket
            }
        &&& forall|i: int, j: int|
            0 <= i < j < self.arrivals().len() ==> #[trigger] self.arrivals()[i].ticket
                < #[trigger] self.arrivals()[j].ticket
    }

    /// No grant is pending: the oldest waiting request does not fit.
    pub open spec fn settled(self) -> bool {
        self.waiting.len() > 0 ==> self.outstanding + self.waiting[0].weight > self.capacity
    }

    pub open spec fn wf(self) -> bool {
        self.consistent() && self.settled()
    }

    /// The number of waiting requests that the next admission grants.
    pub open spec fn grant_count(self) -> nat {
        admit_count(self.outstanding, self.capacity, self.waiting)
    }

    /// The requests that the next admission grants, oldest first.
    pub open spec fn admitted(self) -> Seq<Request> {
        self.waiting.take(self.grant_count() as int)
    }

    /// The state after every waiting request that fits, in order, is granted.
    pub open spec fn grant_all(self) -> GateState {
        GateState {
            outstanding: self.outstanding + total_weight(self.admitted()),
            waiting: self.waiting.skip(self.grant_count() as int),
            held: self.held + self.admitted(),
            ..self
        }
    }

    /// The state after a request of `weight` arrives and joins the queue.
    pub open spec fn enqueue(self, weight: usize) -> GateState {
        GateState {
            waiting: self.waiting.push(Request { ticket: self.next_ticket as u64, weight }),
            next_ticket: self.next_ticket + 1,
            ..self
        }
    }

    /// The state after the granted lease at `i` is returned.
    pub open spec fn withdraw(self, i: int) -> GateState {
        GateState {
            outstanding: (self.outstanding - self.held[i].weight) as nat,
            held: self.held.remove(i),
            ..self
        }
    }

    /// The state after the waiting request at `i` gives up.
    pub open spec fn cancel_at(self, i: int) -> GateState {
        GateState { waiting: self.waiting.remove(i), ..self }
    }
}

pub proof fn lemma_total_weight_concat(a: Seq<Request>, b: Seq<Request>)
    ensures
        total_weight(a + b) == total_weight(a) + total_weight(b),
    decreases a.len(),
{
    if a.len() > 0 {
        assert((a + b).drop_first() =~= a.drop_first() + b);
        lemma_total_weight_concat(a.drop_first(), b);
    } else {
        assert(a + b =~= b);
    }
}

pub proof fn lemma_total_weight_remove(s: Seq<Request>, i: int)
    requires
        0 <= i < s.len(),
    ensures
        total_weight(s.remove(i)) + s[i].weight == total_weight(s),
    decreases s.len(),
{
    if i == 0 {
        assert(s.remove(0) =~= s.drop_first());
    } else {
        assert(s.remove(i).drop_first() =~= s.drop_first().remove(i - 1));
        lemma_total_weight_remove(s.drop_first(), i - 1);
    }
}

/// What `admit_count` grants fits, and the request after it does not.
pub proof fn lemma_admit_count(outstanding: nat, capacity: nat, q: Seq<Request>)
    requires
        outstanding <= capacity,
    ensures
        admit_count(outstanding, capacity, q) <= q.len(),
        outstanding + total_weight(q.take(admit_count(outstanding, capacity, q) as int))
            <= capacity,
        admit_count(outstanding, capacity, q) < q.len() ==> outstanding + total_weight(
            q.take(admit_count(outstanding, capacity, q) as int),
        ) + q[admit_count(outstanding, capacity, q) as int].weight > capacity,
    decreases q.len(),
{
    let k = admit_count(outstanding, capacity, q);
    if q.len() == 0 {
        assert(q.take(0) =~= Seq::<Request>::empty());
    } else if outstanding + q[0].weight <= capacity {
        let o2 = (outstanding + q[0].weight) as nat;
        let r = q.drop_first();
        lemma_admit_count(o2, capacity, r);
        assert(q.take(k as int).drop_first() =~= r.take(k - 1));
        if k < q.len() {
            assert(q[k as int] == r[k - 1]);
        }
    } else {
        assert(q.take(0) =~= Seq::<Request>::empty());
    }
}

/// Granting the fitting prefix of the queue leaves a well-formed, settled gate.
pub proof fn lemma_grant_all_wf(s: GateState)
    requires
        s.consistent(),
    ensures
        s.grant_all().wf(),
        s.grant_all().arrivals() == s.arrivals(),
        s.grant_count() <= s.waiting.len(),
{
    let k = s.grant_count() as int;
    lemma_admit_count(s.outstanding, s.capacity, s.waiting);
    let t = s.grant_all();
    assert(s.waiting =~= s.waiting.take(k) + s.waiting.skip(k));
    assert(t.arrivals() =~= s.arrivals());
    lemma_total_weight_concat(s.held, s.admitted());
    if t.waiting.len() > 0 {
        assert(t.waiting[0] == s.waiting[k]);
    }
}

/// A new request joins the queue behind everything that came before it.
proof fn lemma_enqueue_consistent(s: GateState, weight: usize)
    requires
        s.consistent(),
        1 <= weight <= s.capacity,
        s.next_ticket < u64::MAX,
    ensures
        s.enqueue(weight).consistent(),
{
    let t = s.enqueue(weight);
    let a = s.arrivals();
    let n = Request { ticket: s.next_ticket as u64, weight };
    assert(t.arrivals() =~= a.push(n));
    assert forall|i: int, j: int|
        0 <= i < j < t.arrivals().len() implies #[trigger] t.arrivals()[i].ticket
            < #[trigger] t.arrivals()[j].ticket by {
        assert(t.arrivals()[i] == a[i]);
        assert(1 <= a[i].weight);
        if j < a.len() {
            assert(t.arrivals()[j] == a[j]);
        } else {
            assert(t.arrivals()[j] == n);
        }
    }
    assert forall|i: int| 0 <= i < t.arrivals().len() implies {
        &&& 1 <= #[trigger] t.arrivals()[i].weight <= t.capacity
        &&& t.arrivals()[i].ticket < t.next_ticket
    } by {
        if i < a.len() {
            assert(t.arrivals()[i] == a[i]);
        }
    }
}

proof fn lemma_sorted_remove(a: Seq<Request>, i: int, cap: nat, next: nat)
    requires
        0 <= i < a.len(),
        forall|x: int| 0 <= x < a.len() ==> {
            &&& 1 <= #[trigger] a[x].weight <= cap
            &&& a[x].ticket < next
        },
        forall|x: int, y: int| 0 <= x < y < a.len() ==> #[trigger] a[x].ticket < #[trigger] a[y].ticket,
    ensures
        forall|x: int| 0 <= x < a.remove(i).len() ==> {
            &&& 1 <= #[trigger] a.remove(i)[x].weight <= cap
            &&& a.remove(i)[x].ticket < next
        },
        forall|x: int, y: int|
            0 <= x < y < a.remove(i).len() ==> #[trigger] a.remove(i)[x].ticket
                < #[trigger] a.remove(i)[y].ticket,
{
    let b = a.remove(i);
    assert forall|x: int, y: int| 0 <= x < y < b.len() implies #[trigger] b[x].ticket < #[trigger] b[y].ticket by {
        let x2 = if x < i { x } else { x + 1 };
        let y2 = if y < i { y } else { y + 1 };
        assert(b[x] == a[x2] && b[y] == a[y2]);
    }
    assert forall|x: int| 0 <= x < b.len() implies {
        &&& 1 <= #[trigger] b[x].weight <= cap
        &&& b[x].ticket < next
    } by {
        let x2 = if x < i { x } else { x + 1 };
        assert(b[x] == a[x2]);
    }
}

/// Returning a granted lease gives back exactly its weight.
proof fn lemma_withdraw_consistent(s: GateState, i: int)
    requires
        s.consistent(),
        0 <= i < s.held.len(),
    ensures
        s.withdraw(i).consistent(),
        s.withdraw(i).outstanding + s.held[i].weight == s.outstanding,
{
    lemma_total_weight_remove(s.held, i);
    let t = s.withdraw(i);
    assert(t.arrivals() =~= s.arrivals().remove(i));
    assert(s.arrivals()[i] == s.held[i]);
    lemma_sorted_remove(s.arrivals(), i, s.capacity, s.next_ticket);
}

/// A waiting request that gives up takes nothing with it.
proof fn lemma_cancel_consistent(s: GateState, i: int)
    requires
        s.consistent(),
        0 <= i < s.waiting.len(),
    ensures
        s.cancel_at(i).consistent(),
{
    let t = s.cancel_at(i);
    let j = s.held.len() + i;
    assert(t.arrivals() =~= s.arrivals().remove(j));
    lemma_sorted_remove(s.arrivals(), j, s.capacity, s.next_ticket);
}

/// A granted lease: the holder owns `weight` units of its gate until it hands
/// the lease back.
pub struct Lease {
    gate: u64,
    req: Request,
}

impl View for Lease {
    type V = Request;

    closed spec fn view(&self) -> Request {
        self.req
    }
}

impl Lease {
    /// The identity of the granting gate.
    pub closed spec fn gate_id(&self) -> u64 {
        self.gate
    }

    pub fn gate(&self) -> (r: u64)
        ensures
            r == self.gate_id(),
    {
        self.gate
    }

    pub fn ticket(&self) -> (r: u64)
        ensures
            r == self@.ticket,
    {
        self.req.ticket
    }

    pub fn weight(&self) -> (r: usize)
        ensures
            r == self@.weight,
    {
        self.req.weight
    }
}

/// The requests that a sequence of leases stands for.
pub open spec fn leases_of(ls: Seq<Lease>) -> Seq<Request> {
    ls.map_values(|l: Lease| l@)
}

/// Every lease in `ls` was granted by a gate with identity `id`.
pub open spec fn granted_by(ls: Seq<Lease>, id: u64) -> bool {
    forall|i: int| 0 <= i < ls.len() ==> (#[trigger] ls[i]).gate_id() == id
}

/// Why a request was refused. None of these is a matter of contention: a
/// request that is merely early to be served waits.
#[derive(Clone, Copy, Debug, PartialEq, Eq)]
pub enum GateError {
    /// A request must take at least one unit.
    ZeroWeight,
    /// The request asks for more than this gate's whole capacity and could never
    /// be granted.
    ExceedsCapacity,
    /// Every ticket number has been handed out.
    TicketsExhausted,
}

/// What a request returns: its ticket, and the leases granted as it arrived
/// (its own among them when it fit at once).
pub struct Admission {
    pub ticket: u64,
    pub granted: Vec<Lease>,
}

/// A weighted counting gate of fixed capacity that grants requests strictly in
/// arrival order.
pub struct Gate {
    id: u64,
    capacity: usize,
    outstanding: usize,
    waiting: Vec<Request>,
    held: Vec<Request>,
    next_ticket: u64,
}

impl View for Gate {
    type V = GateState;

    closed spec fn view(&self) -> GateState {
        GateState {
            id: self.id,
            capacity: self.capacity as nat,
            outstanding: self.outstanding as nat,
            waiting: self.waiting@,
            held: self.held@,
            next_ticket: self.next_ticket as nat,
        }
    }
}

impl Gate {
    pub open spec fn wf(&self) -> bool {
        self@.wf()
    }

    /// An empty gate of `capacity` units, whose leases carry `id`. Gates that
    /// may see each other's leases need distinct identities.
    pub fn new(id: u64, capacity: usize) -> (r: Gate)
        requires
            capacity > 0,
        ensures
            r@ == (GateState {
                id,
                capacity: capacity as nat,
                outstanding: 0,
                waiting: Seq::empty(),
                held: Seq::empty(),
                next_ticket: 0,
            }),
            r.wf(),
    {
        let r = Gate {
            id,
            capacity,
            outstanding: 0,
            waiting: Vec::new(),
            held: Vec::new(),
            next_ticket: 0,
        };
        assert(r@.arrivals() =~= Seq::<Request>::empty());
        r
    }

    /// Grants waiting requests from the head of the queue while they fit.
    fn grant_waiting(&mut self) -> (granted: Vec<Lease>)
        requires
            old(self)@.consistent(),
        ensures
            final(self)@ == old(self)@.grant_all(),
            leases_of(granted@) == old(self)@.admitted(),
            granted_by(granted@, old(self)@.id),
            final(self).wf(),
    {
        let ghost s0 = self@;
        proof {
            lemma_grant_all_wf(s0);
        }
        let mut granted: Vec<Lease> = Vec::new();
        let mut i: usize = 0;
        let mut blocked = false;
        assert(s0.waiting.skip(0) =~= s0.waiting);
        assert(s0.waiting.take(0) =~= Seq::<Request>::empty());
        assert(s0.held + Seq::<Request>::empty() =~= s0.held);
        assert(leases_of(granted@) =~= Seq::<Request>::empty());
        while !blocked && i < self.waiting.len()
            invariant
                self.capacity as nat == s0.capacity,
                self.id == s0.id,
                granted_by(granted@, s0.id),
                self.waiting@ == s0.waiting,
                self.next_ticket as nat == s0.next_ticket,
                0 <= i <= s0.waiting.len(),
                self.outstanding as nat == s0.outstanding + total_weight(s0.waiting.take(i as int)),
                self.outstanding <= self.capacity,
                self.held@ == s0.held + s0.waiting.take(i as int),
                leases_of(granted@) == s0.waiting.take(i as int),
                s0.grant_count() == i + admit_count(
                    self.outstanding as nat,
                    s0.capacity,
                    s0.waiting.skip(i as int),
                ),
                blocked ==> admit_count(self.outstanding as nat, s0.capacity, s0.waiting.skip(i as int)) == 0,
            decreases s0.waiting.len() - i + (if blocked {
                0int
            } else {
                1int
            }),
        {
            let r = self.waiting[i];
            if r.weight > self.capacity - self.outstanding {
                blocked = true;
            } else {
                proof {
                    let q = s0.waiting.skip(i as int);
                    assert(q[0] == r);
                    assert(q.drop_first() =~= s0.waiting.skip(i + 1));
                    let p = s0.waiting.take(i + 1);
                    assert(p =~= s0.waiting.take(i as int).push(r));
                    assert(p =~= s0.waiting.take(i as int) + seq![r]);
                    lemma_total_weight_concat(s0.waiting.take(i as int), seq![r]);
                    assert(seq![r].drop_first() =~= Seq::<Request>::empty());
                    assert(total_weight(seq![r]) == r.weight as nat + total_weight(Seq::<Request>::empty()));
                }
                self.outstanding = self.outstanding + r.weight;
                self.held.push(r);
                granted.push(Lease { gate: self.id, req: r });
                proof {
                    assert(leases_of(granted@) =~= s0.waiting.take(i + 1));
                    assert(self.held@ =~= s0.held + s0.waiting.take(i + 1));
                }
                i = i + 1;
            }
        }
        proof {
            if !blocked {
                assert(s0.waiting.skip(i as int).len() == 0);
            }
        }
        let rest = self.waiting.split_off(i);
        self.waiting = rest;
        proof {
            assert(self@ =~= s0.grant_all());
        }
        granted
    }

    /// Asks for `weight` units. The request joins the queue behind every
    /// earlier one, then every waiting request that fits is granted, in order.
    pub fn request(&mut self, weight: usize) -> (r: Result<Admission, GateError>)
        requires
            old(self).wf(),
        ensures
            final(self).wf(),
            match r {
                Ok(a) => {
                    &&& 1 <= weight <= old(self)@.capacity
                    &&& old(self)@.next_ticket < u64::MAX
                    &&& a.ticket == old(self)@.next_ticket
                    &&& final(self)@ == old(self)@.enqueue(weight).grant_all()
                    &&& leases_of(a.granted@) == old(self)@.enqueue(weight).admitted()
                    &&& granted_by(a.granted@, old(self)@.id)
                },
                Err(e) => {
                    &&& *final(self) == *old(self)
                    &&& e == (if weight == 0 {
                        GateError::ZeroWeight
                    } else if weight > old(self)@.capacity {
                        GateError::ExceedsCapacity
                    } else {
                        GateError::TicketsExhausted
                    })
                    &&& (weight == 0 || weight > old(self)@.capacity || old(self)@.next_ticket == u64::MAX)
                },
            },
    {
        if weight == 0 {
            return Err(GateError::ZeroWeight);
        }
        if weight > self.capacity {
            return Err(GateError::ExceedsCapacity);
        }
        if self.next_ticket == u64::MAX {
            return Err(GateError::TicketsExhausted);
        }
        let ticket = self.next_ticket;
        proof {
            lemma_enqueue_consistent(self@, weight);
        }
        self.waiting.push(Request { ticket, weight });
        self.next_ticket = self.next_ticket + 1;
        let granted = self.grant_waiting();
        Ok(Admission { ticket, granted })
    }

    /// Hands a granted lease back. Its weight returns to this gate and every
    /// waiting request that now fits is granted, in order. A lease that another
    /// gate granted, or that this gate does not hold, comes back unchanged as
    /// the error.
    pub fn release(&mut self, lease: Lease) -> (r: Result<Vec<Lease>, Lease>)
        requires
            old(self).wf(),
        ensures
            final(self).wf(),
            match r {
                Ok(granted) => {
                    &&& lease.gate_id() == old(self)@.id
                    &&& granted_by(granted@, old(self)@.id)
                    &&& exists|i: int|
                        0 <= i < old(self)@.held.len() && old(self)@.held[i] == lease@
                            && final(self)@ == old(self)@.withdraw(i).grant_all()
                            && leases_of(granted@) == old(self)@.withdraw(i).admitted()
                },
                Err(l) => {
                    &&& l@ == lease@
                    &&& l.gate_id() == lease.gate_id()
                    &&& *final(self) == *old(self)
                    &&& (lease.gate_id() != old(self)@.id || !old(self)@.held.contains(lease@))
                },
            },
    {
        if lease.gate != self.id {
            return Err(lease);
        }
        let mut i: usize = 0;
        while i < self.held.len()
            invariant
                0 <= i <= self.held@.len(),
                forall|j: int| 0 <= j < i ==> self.held@[j] != lease@,
            ensures
                0 <= i <= self.held@.len(),
                forall|j: int| 0 <= j < i ==> self.held@[j] != lease@,
                i < self.held@.len() ==> self.held@[i as int] == lease@,
            decreases self.held@.len() - i,
        {
            let h = self.held[i];
            if h.ticket == lease.req.ticket && h.weight == lease.req.weight {
                break;
            }
            i = i + 1;
        }
        if i == self.held.len() {
            proof {
                assert forall|x: Request| self@.held.contains(x) implies x != lease@ by {
                    let j = choose|j: int| 0 <= j < self.held@.len() && self.held@[j] == x;
                }
            }
            return Err(lease);
        }
        let ghost s_before = self@;
        proof {
            lemma_withdraw_consistent(self@, i as int);
        }
        let gone = self.held.remove(i);
        self.outstanding = self.outstanding - gone.weight;
        assert(self@ =~= s_before.withdraw(i as int));
        let granted = self.grant_waiting();
        Ok(granted)
    }

    /// Withdraws the waiting request with `ticket`, as when the task that made
    /// it gives up. It held nothing, so nothing is returned to this gate; but the
    /// requests behind it may now be granted, and are. `None` when no request
    /// with that ticket is waiting.
    pub fn cancel(&mut self, ticket: u64) -> (r: Option<Vec<Lease>>)
        requires
            old(self).wf(),
        ensures
            final(self).wf(),
            match r {
                Some(granted) => granted_by(granted@, old(self)@.id) && exists|i: int|
                    0 <= i < old(self)@.waiting.len() && old(self)@.waiting[i].ticket == ticket
                        && final(self)@ == old(self)@.cancel_at(i).grant_all() && leases_of(
                        granted@,
                    ) == old(self)@.cancel_at(i).admitted(),
                None => {
                    &&& *final(self) == *old(self)
                    &&& forall|i: int|
                        0 <= i < old(self)@.waiting.len() ==> old(self)@.waiting[i].ticket
                            != ticket
                },
            },
    {
        let mut i: usize = 0;
        while i < self.waiting.len()
            invariant
                0 <= i <= self.waiting@.len(),
                forall|j: int| 0 <= j < i ==> self.waiting@[j].ticket != ticket,
            ensures
                0 <= i <= self.waiting@.len(),
                forall|j: int| 0 <= j < i ==> self.waiting@[j].ticket != ticket,
                i < self.waiting@.len() ==> self.waiting@[i as int].ticket == ticket,
            decreases self.waiting@.len() - i,
        {
            if self.waiting[i].ticket == ticket {
                break;
            }
            i = i + 1;
        }
        if i == self.waiting.len() {
            return None;
        }
        let ghost s_before = self@;
        proof {
            lemma_cancel_consistent(self@, i as int);
        }
        self.waiting.remove(i);
        assert(self@ =~= s_before.cancel_at(i as int));
        let granted = self.grant_waiting();
        Some(granted)
    }

    pub fn capacity(&self) -> (r: usize)
        ensures
            r == self@.capacity,
    {
        self.capacity
    }

    /// Units held by granted, unreleased leases.
    pub fn outstanding(&self) -> (r: usize)
        ensures
            r == self@.outstanding,
    {
        self.outstanding
    }

    /// Units free right now.
    pub fn available(&self) -> (r: usize)
        requires
            self.wf(),
        ensures
            r == self@.capacity - self@.outstanding,
    {
        self.capacity - self.outstanding
    }

    /// Number of requests still waiting.
    pub fn waiting_count(&self) -> (r: usize)
        ensures
            r == self@.waiting.len(),
    {
        self.waiting.len()
    }

    /// Number of granted leases not yet released.
    pub fn held_count(&self) -> (r: usize)
        ensures
            r == self@.held.len(),
    {
        self.held.len()
    }
}

/// Outstanding weight stays within the capacity whatever sequence of requests,
/// releases and cancellations a gate goes through: every step from a
/// well-formed state leads to a well-formed state, and in a well-formed state
/// the outstanding weight is the weight of the held leases, at most the capacity.
pub proof fn lemma_outstanding_within_capacity(s: GateState)
    requires
        s.wf(),
    ensures
        s.outstanding == total_weight(s.held),
        s.outstanding <= s.capacity,
        forall|w: usize|
            1 <= w <= s.capacity && s.next_ticket < u64::MAX ==> (#[trigger] s.enqueue(
                w,
            ).grant_all()).wf(),
        forall|i: int| 0 <= i < s.held.len() ==> (#[trigger] s.withdraw(i).grant_all()).wf(),
        forall|i: int| 0 <= i < s.waiting.len() ==> (#[trigger] s.cancel_at(i).grant_all()).wf(),
{
    assert forall|w: usize| 1 <= w <= s.capacity && s.next_ticket < u64::MAX implies (
    #[trigger] s.enqueue(w).grant_all()).wf() by {
        lemma_enqueue_consistent(s, w);
        lemma_grant_all_wf(s.enqueue(w));
    }
    assert forall|i: int| 0 <= i < s.held.len() implies (
    #[trigger] s.withdraw(i).grant_all()).wf() by {
        lemma_withdraw_consistent(s, i);
        lemma_grant_all_wf(s.withdraw(i));
    }
    assert forall|i: int| 0 <= i < s.waiting.len() implies (
    #[trigger] s.cancel_at(i).grant_all()).wf() by {
        lemma_cancel_consistent(s, i);
        lemma_grant_all_wf(s.cancel_at(i));
    }
}

/// Grants follow arrival order: when a waiting request is granted in a step,
/// every request that arrived before it and still waited is granted in that
/// step too. A later request never overtakes an earlier one.
pub proof fn lemma_grants_follow_arrival(s: GateState, i: int, j: int)
    requires
        s.consistent(),
        0 <= i < j < s.waiting.len(),
        !s.grant_all().waiting.contains(s.waiting[j]),
    ensures
        !s.grant_all().waiting.contains(s.waiting[i]),
        s.grant_all().held.contains(s.waiting[i]),
{
    let k = s.grant_count() as int;
    lemma_admit_count(s.outstanding, s.capacity, s.waiting);
    let rest = s.grant_all().waiting;
    let a = s.arrivals();
    let h = s.held.len() as int;
    if j >= k {
        assert(rest[j - k] == s.waiting[j]);
    }
    assert forall|m: int| 0 <= m < rest.len() implies rest[m] != s.waiting[i] by {
        assert(rest[m] == s.waiting[k + m]);
        assert(a[h + i] == s.waiting[i]);
        assert(a[h + k + m] == s.waiting[k + m]);
        assert(a[h + i].ticket < a[h + k + m].ticket);
    }
    assert(s.grant_all().held[h + i] == s.waiting[i]);
}

/// No weight leaks: returning a granted lease gives back exactly its weight
/// (whatever is then handed on goes to the requests granted in that step),
/// the lease is no longer held afterwards, so it cannot be returned twice, and
/// a gate whose leases have all come back has nothing outstanding.
pub proof fn lemma_release_returns_weight(s: GateState, i: int)
    requires
        s.wf(),
        0 <= i < s.held.len(),
    ensures
        s.withdraw(i).grant_all().outstanding + s.held[i].weight == s.outstanding
            + total_weight(s.withdraw(i).admitted()),
        !s.withdraw(i).grant_all().held.contains(s.held[i]),
        s.withdraw(i).grant_all().held.len() == 0 ==> s.withdraw(i).grant_all().outstanding == 0,
{
    lemma_withdraw_consistent(s, i);
    let t = s.withdraw(i);
    lemma_grant_all_wf(t);
    let u = t.grant_all();
    let a = s.arrivals();
    let x = s.held[i];
    assert(a[i] == x);
    assert(u.arrivals() == a.remove(i));
    assert forall|m: int| 0 <= m < u.held.len() implies u.held[m] != x by {
        assert(u.held[m] == u.arrivals()[m]);
        if m < i {
            assert(u.arrivals()[m] == a[m]);
            assert(a[m].ticket < a[i].ticket);
        } else {
            assert(u.arrivals()[m] == a[m + 1]);
            assert(a[i].ticket < a[m + 1].ticket);
        }
    }
    if u.held.len() == 0 {
        assert(u.held =~= Seq::<Request>::empty());
    }
}

/// A waiting request that gives up takes no weight with it.
pub proof fn lemma_cancel_takes_nothing(s: GateState, i: int)
    requires
        s.wf(),
        0 <= i < s.waiting.len(),
    ensures
        s.cancel_at(i).outstanding == s.outstanding,
        s.cancel_at(i).held == s.held,
{
}

/// Nobody waits on an idle gate: while requests wait, some lease is held, so a
/// release is still to come.
pub proof fn lemma_waiters_imply_holders(s: GateState)
    requires
        s.wf(),
        s.waiting.len() > 0,
    ensures
        s.held.len() > 0,
{
    if s.held.len() == 0 {
        assert(s.arrivals()[0] == s.waiting[0]);
        assert(s.waiting[0].weight <= s.capacity);
    }
}

/// Progress under saturation: a release of a lease at least as heavy as the
/// oldest waiting request grants that request, and every waiting request moves
/// at least one place nearer the head. With requests of weight one this holds
/// of every release, so a request that has `n` others ahead of it is granted
/// within `n + 1` releases, however many arrive behind it.
pub proof fn lemma_release_moves_queue(s: GateState, i: int)
    requires
        s.wf(),
        0 <= i < s.held.len(),
        s.waiting.len() > 0,
        s.waiting[0].weight <= s.held[i].weight,
    ensures
        s.withdraw(i).grant_count() >= 1,
        s.withdraw(i).grant_all().waiting == s.waiting.skip(s.withdraw(i).grant_count() as int),
{
    lemma_withdraw_consistent(s, i);
    let t = s.withdraw(i);
    assert(t.outstanding + t.waiting[0].weight <= t.capacity);
    assert(t.waiting.len() > 0);
}

} // verus!
