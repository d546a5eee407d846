//! The admission queue: a fixed set of display slots handed out to requests
//! in arrival order, with live queue positions and cancellation.
//!
//! The pool is a state machine. Each call is one turn of its event loop and
//! returns the status notices that the turn sends, in order, each addressed
//! to a request by its id.
use vstd::prelude::*;
use vstd::set_lib::{lemma_int_range, lemma_len_subset, lemma_map_size_bound, set_int_range};

verus! {

/// What a request learns from the pool.
#[derive(Clone, Debug, PartialEq, Eq)]
pub enum ResourceStatus {
    /// The request holds this slot until it releases it.
    Success(u32),
    /// The request ended without a slot, for the reason given.
    Failed(String),
    /// The request waits with this many requests before it.
    QueuePosition(usize),
    /// The request was withdrawn before it got a slot.
    Cancelled,
}

impl ResourceStatus {
    /// Success, failure and cancellation end a request's stream of statuses.
    pub open spec fn is_terminal(&self) -> bool {
        !(self is QueuePosition)
    }
}

/// A status addressed to one request.
#[derive(Clone, Debug, PartialEq, Eq)]
pub struct Notice {
    pub request: u64,
    pub status: ResourceStatus,
}

/// The pool as a mathematical value.
pub ghost struct PoolView {
    pub slot_count: nat,
    /// Free slots, the next one to hand out first.
    pub free: Seq<u32>,
    /// For each slot, the request that holds it.
    pub owners: Seq<Option<u64>>,
    /// Waiting requests, the longest waiting first.
    pub waiting: Seq<u64>,
    /// The id the next request gets.
    pub next_id: nat,
}

/// One turn of the pool's event loop.
pub enum PoolEvent {
    /// A new request arrives; `cancelled` tells whether it was withdrawn by
    /// the time the pool looks at it.
    Acquire(bool),
    Release(u32),
    Cancel(u64),
}

pub open spec fn no_duplicates<T>(s: Seq<T>) -> bool {
    forall|i: int, j: int| 0 <= i < j < s.len() ==> s[i] != s[j]
}

/// The positions of all waiting requests, front first.
pub open spec fn positions(waiting: Seq<u64>) -> Seq<Notice> {
    Seq::new(waiting.len(), |i: int| Notice { request: waiting[i], status: ResourceStatus::QueuePosition(i as usize) })
}

impl PoolView {
    pub open spec fn wf(self) -> bool {
        &&& self.slot_count <= u32::MAX
        &&& self.owners.len() == self.slot_count
        &&& no_duplicates(self.free)
        &&& forall|i: int| 0 <= i < self.free.len() ==> {
            &&& self.free[i] < self.slot_count
            &&& self.owners[self.free[i] as int] is None
        }
        &&& forall|s: int| 0 <= s < self.slot_count && self.owners[s] is None ==> self.free.contains(s as u32)
        &&& no_duplicates(self.waiting)
        &&& forall|i: int| 0 <= i < self.waiting.len() ==> self.waiting[i] < self.next_id
        &&& forall|s: int| 0 <= s < self.slot_count && self.owners[s] is Some ==> {
            &&& self.owners[s].unwrap() < self.next_id
            &&& !self.waiting.contains(self.owners[s].unwrap())
        }
        &&& forall|s: int, t: int| 0 <= s < t < self.slot_count && self.owners[s] is Some ==> self.owners[s] != self.owners[t]
    }

    /// The requests that hold a slot.
    pub open spec fn holders(self) -> Set<u64> {
        Set::new(|id: u64| exists|s: int| 0 <= s < self.owners.len() && self.owners[s] == Some(id))
    }

    /// A request that may still get a terminal status: it waits, or it has
    /// not been made yet.
    pub open spec fn is_pending(self, id: u64) -> bool {
        self.waiting.contains(id) || id >= self.next_id
    }

    pub open spec fn acquire(self, cancelled: bool) -> (PoolView, Seq<Notice>) {
        let id = self.next_id as u64;
        let issued = PoolView { next_id: self.next_id + 1, ..self };
        if self.waiting.len() > 0 || self.free.len() == 0 {
            if cancelled {
                (
                    issued,
                    seq![
                        Notice { request: id, status: ResourceStatus::QueuePosition(self.waiting.len() as usize) },
                        Notice { request: id, status: ResourceStatus::Cancelled },
                    ] + positions(self.waiting),
                )
            } else {
                let waiting = self.waiting.push(id);
                (
                    PoolView { waiting, ..issued },
                    seq![Notice { request: id, status: ResourceStatus::QueuePosition(self.waiting.len() as usize) }]
                        + positions(waiting),
                )
            }
        } else if cancelled {
            (issued, seq![Notice { request: id, status: ResourceStatus::Cancelled }])
        } else {
            let slot = self.free[0];
            (
                PoolView { free: self.free.drop_first(), owners: self.owners.update(slot as int, Some(id)), ..issued },
                seq![Notice { request: id, status: ResourceStatus::Success(slot) }],
            )
        }
    }

    /// A slot that no request holds is not released again: nothing changes.
    pub open spec fn release(self, slot: u32) -> (PoolView, Seq<Notice>) {
        if slot >= self.slot_count || self.owners[slot as int] is None {
            (self, seq![])
        } else if self.waiting.len() > 0 {
            let id = self.waiting[0];
            let waiting = self.waiting.drop_first();
            (
                PoolView { owners: self.owners.update(slot as int, Some(id)), waiting, ..self },
                seq![Notice { request: id, status: ResourceStatus::Success(slot) }] + positions(waiting),
            )
        } else {
            (PoolView { owners: self.owners.update(slot as int, None), free: self.free.push(slot), ..self }, seq![])
        }
    }

    /// Cancelling a request that no longer waits changes nothing.
    pub open spec fn cancel(self, id: u64) -> (PoolView, Seq<Notice>) {
        if self.waiting.contains(id) {
            let i = choose|i: int| 0 <= i < self.waiting.len() && self.waiting[i] == id;
            let waiting = self.waiting.remove(i);
            (
                PoolView { waiting, ..self },
                seq![Notice { request: id, status: ResourceStatus::Cancelled }] + positions(waiting),
            )
        } else {
            (self, seq![])
        }
    }

    pub open spec fn step(self, event: PoolEvent) -> (PoolView, Seq<Notice>) {
        match event {
            PoolEvent::Acquire(cancelled) => self.acquire(cancelled),
            PoolEvent::Release(slot) => self.release(slot),
            PoolEvent::Cancel(id) => self.cancel(id),
        }
    }
}

/// A fixed set of display slots `0..slot_count` and the requests that wait
/// for them.
pub struct ResourcePool {
    slot_count: u32,
    free: Vec<u32>,
    owners: Vec<Option<u64>>,
    waiting: Vec<u64>,
    next_id: u64,
}

impl View for ResourcePool {
    type V = PoolView;

    closed spec fn view(&self) -> PoolView {
        PoolView {
            slot_count: self.slot_count as nat,
            free: self.free@,
            owners: self.owners@,
            waiting: self.waiting@,
            next_id: self.next_id as nat,
        }
    }
}

fn push_positions(out: &mut Vec<Notice>, waiting: &Vec<u64>)
    ensures
        final(out)@ == old(out)@ + positions(waiting@),
{
    let mut i: usize = 0;
    while i < waiting.len()
        invariant
            i <= waiting@.len(),
            out@ == old(out)@ + positions(waiting@.take(i as int)),
        decreases waiting@.len() - i,
    {
        out.push(Notice { request: waiting[i], status: ResourceStatus::QueuePosition(i) });
        i += 1;
        assert(out@ =~= old(out)@ + positions(waiting@.take(i as int)));
    }
    assert(waiting@.take(i as int) =~= waiting@);
}

impl ResourcePool {
    /// A pool of `resource_count` free slots, handed out from slot 0 up.
    pub fn new(resource_count: u32) -> (r: ResourcePool)
        ensures
            r@.wf(),
            r@.slot_count == resource_count,
            r@.free == Seq::new(resource_count as nat, |i: int| i as u32),
            r@.waiting.len() == 0,
            r@.next_id == 0,
    {
        let mut free: Vec<u32> = Vec::new();
        let mut owners: Vec<Option<u64>> = Vec::new();
        let mut i: u32 = 0;
        while i < resource_count
            invariant
                i <= resource_count,
                free@ == Seq::new(i as nat, |k: int| k as u32),
                owners@ == Seq::new(i as nat, |k: int| None::<u64>),
            decreases resource_count - i,
        {
            free.push(i);
            owners.push(None);
            i += 1;
            assert(free@ =~= Seq::new(i as nat, |k: int| k as u32));
            assert(owners@ =~= Seq::new(i as nat, |k: int| None::<u64>));
        }
        let r = ResourcePool { slot_count: resource_count, free, owners, waiting: Vec::new(), next_id: 0 };
        assert forall|s: int| 0 <= s < r@.slot_count && r@.owners[s] is None implies r@.free.contains(s as u32) by {
            assert(r@.free[s] == s as u32);
        }
        r
    }

    /// Takes a new request. Returns its id and the notices of this turn; the
    /// request gets `Success` at once if a slot is free, nobody waits and it
    /// was not `cancelled`, and joins the back of the queue otherwise.
    pub fn request_resource(&mut self, cancelled: bool) -> (r: (u64, Vec<Notice>))
        requires
            old(self)@.wf(),
            old(self)@.next_id < u64::MAX,
        ensures
            final(self)@.wf(),
            r.0 == old(self)@.next_id,
            (final(self)@, r.1@) == old(self)@.step(PoolEvent::Acquire(cancelled)),
    {
        proof {
            lemma_step_preserves_wf(self@, PoolEvent::Acquire(cancelled));
        }
        let id = self.next_id;
        self.next_id = id + 1;
        let mut out: Vec<Notice> = Vec::new();
        if self.waiting.len() > 0 || self.free.len() == 0 {
            out.push(Notice { request: id, status: ResourceStatus::QueuePosition(self.waiting.len()) });
            if cancelled {
                out.push(Notice { request: id, status: ResourceStatus::Cancelled });
            } else {
                self.waiting.push(id);
            }
            push_positions(&mut out, &self.waiting);
        } else if cancelled {
            out.push(Notice { request: id, status: ResourceStatus::Cancelled });
        } else {
            let slot = self.free.remove(0);
            self.owners.set(slot as usize, Some(id));
            out.push(Notice { request: id, status: ResourceStatus::Success(slot) });
        }
        proof {
            assert(self@.free =~= old(self)@.step(PoolEvent::Acquire(cancelled)).0.free);
            assert(out@ =~= old(self)@.step(PoolEvent::Acquire(cancelled)).1);
        }
        (id, out)
    }

    /// Returns `slot`. The longest-waiting request gets it at once; with
    /// nobody waiting it goes to the back of the free slots. A slot that no
    /// request holds changes nothing.
    pub fn release(&mut self, slot: u32) -> (r: Vec<Notice>)
        requires
            old(self)@.wf(),
        ensures
            final(self)@.wf(),
            (final(self)@, r@) == old(self)@.step(PoolEvent::Release(slot)),
    {
        proof {
            lemma_step_preserves_wf(self@, PoolEvent::Release(slot));
        }
        let mut out: Vec<Notice> = Vec::new();
        if slot >= self.slot_count || self.owners[slot as usize].is_none() {
            return out;
        }
        if self.waiting.len() > 0 {
            let id = self.waiting.remove(0);
            self.owners.set(slot as usize, Some(id));
            out.push(Notice { request: id, status: ResourceStatus::Success(slot) });
            push_positions(&mut out, &self.waiting);
        } else {
            self.owners.set(slot as usize, None);
            self.free.push(slot);
        }
        proof {
            assert(self@.waiting =~= old(self)@.step(PoolEvent::Release(slot)).0.waiting);
            assert(out@ =~= old(self)@.step(PoolEvent::Release(slot)).1);
        }
        out
    }

    /// Withdraws a waiting request: it gets `Cancelled` and leaves the
    /// queue. A request that holds a slot or has ended is left as it is.
    pub fn cancel(&mut self, request: u64) -> (r: Vec<Notice>)
        requires
            old(self)@.wf(),
        ensures
            final(self)@.wf(),
            (final(self)@, r@) == old(self)@.step(PoolEvent::Cancel(request)),
    {
        proof {
            lemma_step_preserves_wf(self@, PoolEvent::Cancel(request));
        }
        let mut out: Vec<Notice> = Vec::new();
        let mut i: usize = 0;
        while i < self.waiting.len() && self.waiting[i] != request
            invariant
                i <= self.waiting@.len(),
                forall|k: int| 0 <= k < i ==> self.waiting@[k] != request,
            decreases self.waiting@.len() - i,
        {
            i += 1;
        }
        if i == self.waiting.len() {
            assert(!self@.waiting.contains(request));
            return out;
        }
        proof {
            let c = choose|c: int| 0 <= c < self@.waiting.len() && self@.waiting[c] == request;
            assert(self.waiting@[i as int] == request);
            if c > i {
                assert(self@.waiting[i as int] != self@.waiting[c]);
            }
            assert(c == i);
        }
        self.waiting.remove(i);
        out.push(Notice { request, status: ResourceStatus::Cancelled });
        push_positions(&mut out, &self.waiting);
        proof {
            assert(out@ =~= old(self)@.step(PoolEvent::Cancel(request)).1);
        }
        out
    }

    /// Number of requests waiting for a slot.
    pub fn waiting_count(&self) -> (r: usize)
        ensures
            r == self@.waiting.len(),
    {
        self.waiting.len()
    }
}

/// Every turn keeps the pool well formed.
pub proof fn lemma_step_preserves_wf(v: PoolView, event: PoolEvent)
    requires
        v.wf(),
        event is Acquire ==> v.next_id < u64::MAX,
    ensures
        v.step(event).0.wf(),
{
    let (v2, ns) = v.step(event);
    match event {
        PoolEvent::Acquire(cancelled) => {
            if !(v.waiting.len() > 0 || v.free.len() == 0) && !cancelled {
                let slot = v.free[0];
                assert forall|s: int| 0 <= s < v2.slot_count && v2.owners[s] is None implies v2.free.contains(s as u32) by {
                    assert(v.free.contains(s as u32));
                    let k = choose|k: int| 0 <= k < v.free.len() && v.free[k] == s as u32;
                    assert(k != 0);
                    assert(v2.free[k - 1] == s as u32);
                }
            } else if !cancelled {
                assert forall|i: int| 0 <= i < v2.waiting.len() implies v2.waiting[i] < v2.next_id by {}
            }
        },
        PoolEvent::Release(slot) => {
            if slot < v.slot_count && v.owners[slot as int] is Some {
                assert(!v.free.contains(slot)) by {
                    if v.free.contains(slot) {
                        let k = choose|k: int| 0 <= k < v.free.len() && v.free[k] == slot;
                    }
                }
                if v.waiting.len() > 0 {
                    let id = v.waiting[0];
                    assert forall|s: int| 0 <= s < v2.slot_count && v2.owners[s] is Some implies
                        !v2.waiting.contains(v2.owners[s].unwrap()) by {
                        if v2.waiting.contains(v2.owners[s].unwrap()) {
                            let k = choose|k: int| 0 <= k < v2.waiting.len() && v2.waiting[k] == v2.owners[s].unwrap();
                            assert(v.waiting[k + 1] == v2.waiting[k]);
                            if s == slot as int {
                                assert(v.waiting[0] == v.waiting[k + 1]);
                            } else {
                                assert(v.waiting.contains(v.owners[s].unwrap()));
                            }
                        }
                    }
                    assert forall|s: int, t: int| 0 <= s < t < v2.slot_count && v2.owners[s] is Some implies
                        v2.owners[s] != v2.owners[t] by {
                        if s == slot as int && v2.owners[t] is Some {
                            assert(v.waiting.contains(id));
                        } else if t == slot as int {
                            assert(v.waiting.contains(id));
                        }
                    }
                } else {
                    assert forall|s: int| 0 <= s < v2.slot_count && v2.owners[s] is None implies v2.free.contains(s as u32) by {
                        if s == slot as int {
                            assert(v2.free[v2.free.len() - 1] == slot);
                        } else {
                            let k = choose|k: int| 0 <= k < v.free.len() && v.free[k] == s as u32;
                            assert(v2.free[k] == s as u32);
                        }
                    }
                }
            }
        },
        PoolEvent::Cancel(id) => {
            if v.waiting.contains(id) {
                let i = choose|i: int| 0 <= i < v.waiting.len() && v.waiting[i] == id;
                assert forall|s: int| 0 <= s < v2.slot_count && v2.owners[s] is Some implies
                    !v2.waiting.contains(v2.owners[s].unwrap()) by {
                    if v2.waiting.contains(v2.owners[s].unwrap()) {
                        let k = choose|k: int| 0 <= k < v2.waiting.len() && v2.waiting[k] == v2.owners[s].unwrap();
                        if k < i {
                            assert(v.waiting[k] == v2.waiting[k]);
                        } else {
                            assert(v.waiting[k + 1] == v2.waiting[k]);
                        }
                    }
                }
            }
        },
    }
}

/// No more requests hold a slot than there are slots.
pub proof fn lemma_holders_bounded(v: PoolView)
    requires
        v.wf(),
    ensures
        v.holders().finite(),
        v.holders().len() <= v.slot_count,
{
    let range = set_int_range(0, v.slot_count as int);
    let held = range.filter(|s: int| v.owners[s] is Some);
    let owner_of = |s: int| v.owners[s].unwrap();
    lemma_int_range(0, v.slot_count as int);
    lemma_len_subset(held, range);
    assert(held.map(owner_of) =~= v.holders()) by {
        assert forall|id: u64| v.holders().contains(id) implies held.map(owner_of).contains(id) by {
            let s = choose|s: int| 0 <= s < v.owners.len() && v.owners[s] == Some(id);
            assert(held.contains(s));
            assert(owner_of(s) == id);
        }
    }
    lemma_map_size_bound(held, v.holders(), owner_of);
}

/// A request gets at most one terminal status: each turn sends terminal
/// statuses only to pending requests, at most one to each and none after
/// it, leaves those requests no longer pending, and never makes a request
/// pending again.
pub proof fn lemma_terminal_once(v: PoolView, event: PoolEvent)
    requires
        v.wf(),
        event is Acquire ==> v.next_id < u64::MAX,
    ensures
        ({
            let (v2, ns) = v.step(event);
            &&& forall|id: u64| !v.is_pending(id) ==> !v2.is_pending(id)
            &&& forall|k: int| 0 <= k < ns.len() && ns[k].status.is_terminal() ==> {
                &&& v.is_pending(ns[k].request)
                &&& !v2.is_pending(ns[k].request)
            }
            &&& forall|j: int, k: int| 0 <= j < k < ns.len() && ns[j].request == ns[k].request ==>
                !ns[j].status.is_terminal()
        }),
{
    let (v2, ns) = v.step(event);
    match event {
        PoolEvent::Acquire(cancelled) => {
            let id = v.next_id as u64;
            assert(!v.waiting.contains(id));
            assert forall|id2: u64| !v.is_pending(id2) implies !v2.is_pending(id2) by {
                if v2.waiting.contains(id2) && !v.waiting.contains(id2) {
                    let k = choose|k: int| 0 <= k < v2.waiting.len() && v2.waiting[k] == id2;
                    assert(k == v.waiting.len());
                }
            }
            assert forall|j: int, k: int| 0 <= j < k < ns.len() && ns[j].request == ns[k].request implies
                !ns[j].status.is_terminal() by {
                if ns[j].status.is_terminal() && k >= 2 {
                    assert(v.waiting[k - 2] == ns[k].request);
                }
            }
        },
        PoolEvent::Release(slot) => {
            if slot < v.slot_count && v.owners[slot as int] is Some && v.waiting.len() > 0 {
                let id = v.waiting[0];
                assert(!v2.waiting.contains(id)) by {
                    if v2.waiting.contains(id) {
                        let k = choose|k: int| 0 <= k < v2.waiting.len() && v2.waiting[k] == id;
                        assert(v.waiting[k + 1] == id);
                    }
                }
                assert forall|id2: u64| !v.is_pending(id2) implies !v2.is_pending(id2) by {
                    if v2.waiting.contains(id2) {
                        let k = choose|k: int| 0 <= k < v2.waiting.len() && v2.waiting[k] == id2;
                        assert(v.waiting[k + 1] == id2);
                    }
                }
                assert(v.waiting.contains(id));
            }
        },
        PoolEvent::Cancel(id) => {
            if v.waiting.contains(id) {
                let i = choose|i: int| 0 <= i < v.waiting.len() && v.waiting[i] == id;
                assert(!v2.waiting.contains(id)) by {
                    if v2.waiting.contains(id) {
                        let k = choose|k: int| 0 <= k < v2.waiting.len() && v2.waiting[k] == id;
                        if k < i {
                            assert(v.waiting[k] == id);
                        } else {
                            assert(v.waiting[k + 1] == id);
                        }
                    }
                }
                assert forall|id2: u64| !v.is_pending(id2) implies !v2.is_pending(id2) by {
                    if v2.waiting.contains(id2) {
                        let k = choose|k: int| 0 <= k < v2.waiting.len() && v2.waiting[k] == id2;
                        if k < i {
                            assert(v.waiting[k] == id2);
                        } else {
                            assert(v.waiting[k + 1] == id2);
                        }
                    }
                }
            }
        },
    }
}

/// Queue positions never go up: a request that waits before and after a
/// turn stands no further back than before, and each position sent to a
/// waiting request is its place in the queue after the turn.
pub proof fn lemma_positions_never_rise(v: PoolView, event: PoolEvent)
    requires
        v.wf(),
        event is Acquire ==> v.next_id < u64::MAX,
        v.waiting.len() < usize::MAX,
    ensures
        ({
            let (v2, ns) = v.step(event);
            &&& forall|i: int, j: int|
                0 <= i < v2.waiting.len() && 0 <= j < v.waiting.len() && v2.waiting[i] == v.waiting[j] ==> i <= j
            &&& forall|k: int|
                0 <= k < ns.len() && ns[k].status is QueuePosition && v2.waiting.contains(ns[k].request) ==>
                v2.waiting[ns[k].status->QueuePosition_0 as int] == ns[k].request
        }),
{
    let (v2, ns) = v.step(event);
    match event {
        PoolEvent::Acquire(cancelled) => {
            let id = v.next_id as u64;
            assert(!v.waiting.contains(id));
            assert forall|i: int, j: int|
                0 <= i < v2.waiting.len() && 0 <= j < v.waiting.len() && v2.waiting[i] == v.waiting[j] implies i <= j by {
                if i != j && i < v.waiting.len() {
                    assert(v.waiting[i] == v2.waiting[i]);
                }
            }
            if v.waiting.len() > 0 || v.free.len() == 0 {
                let off: int = if cancelled { 2 } else { 1 };
                assert forall|k: int|
                    0 <= k < ns.len() && ns[k].status is QueuePosition && v2.waiting.contains(ns[k].request) implies
                    v2.waiting[ns[k].status->QueuePosition_0 as int] == ns[k].request by {
                    if k >= off {
                        assert(ns[k] == positions(v2.waiting)[k - off]);
                    }
                }
            }
        },
        PoolEvent::Release(slot) => {
            assert forall|i: int, j: int|
                0 <= i < v2.waiting.len() && 0 <= j < v.waiting.len() && v2.waiting[i] == v.waiting[j] implies i <= j by {
                if v2.waiting != v.waiting {
                    assert(v.waiting[i + 1] == v2.waiting[i]);
                }
            }
            assert forall|k: int|
                0 <= k < ns.len() && ns[k].status is QueuePosition && v2.waiting.contains(ns[k].request) implies
                v2.waiting[ns[k].status->QueuePosition_0 as int] == ns[k].request by {
                if k >= 1 {
                    assert(ns[k] == positions(v2.waiting)[k - 1]);
                }
            }
        },
        PoolEvent::Cancel(id) => {
            if v.waiting.contains(id) {
                let c = choose|c: int| 0 <= c < v.waiting.len() && v.waiting[c] == id;
                assert forall|i: int, j: int|
                    0 <= i < v2.waiting.len() && 0 <= j < v.waiting.len() && v2.waiting[i] == v.waiting[j] implies i <= j by {
                    if i < c {
                        assert(v.waiting[i] == v2.waiting[i]);
                    } else {
                        assert(v.waiting[i + 1] == v2.waiting[i]);
                    }
                }
                assert forall|k: int|
                    0 <= k < ns.len() && ns[k].status is QueuePosition && v2.waiting.contains(ns[k].request) implies
                    v2.waiting[ns[k].status->QueuePosition_0 as int] == ns[k].request by {
                    if k >= 1 {
                        assert(ns[k] == positions(v2.waiting)[k - 1]);
                    }
                }
            }
        },
    }
}

/// When every slot is taken and nobody waits, a slot released and then
/// asked for again goes to the new request.
pub proof fn lemma_release_then_acquire(v: PoolView, slot: u32)
    requires
        v.wf(),
        slot < v.slot_count,
        v.owners[slot as int] is Some,
        v.free.len() == 0,
        v.waiting.len() == 0,
    ensures
        ({
            let released = v.release(slot).0;
            let (after, ns) = released.acquire(false);
            ns == seq![Notice { request: v.next_id as u64, status: ResourceStatus::Success(slot) }]
        }),
{
}

/// Releasing a held slot while requests wait ends the wait of the front
/// request with `Success` for that slot, and moves every other waiting
/// request one place forward.
pub proof fn lemma_release_serves_front(v: PoolView, slot: u32)
    requires
        v.wf(),
        slot < v.slot_count,
        v.owners[slot as int] is Some,
        v.waiting.len() > 0,
    ensures
        ({
            let (after, ns) = v.release(slot);
            &&& ns[0] == (Notice { request: v.waiting[0], status: ResourceStatus::Success(slot) })
            &&& after.waiting == v.waiting.drop_first()
            &&& after.owners[slot as int] == Some(v.waiting[0])
        }),
{
}

} // verus!
