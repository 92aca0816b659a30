//! A bounded queue of clients that wait for a connection.
//!
//! Waiters are woken in the order in which they came. A waiter that gives up
//! leaves its place: it is not woken, and the place is free for another.
use std::collections::{HashSet, VecDeque};
use vstd::prelude::*;

verus! {

broadcast use vstd::std_specs::hash::group_hash_axioms;

/// The queue is full.
#[derive(Debug, Clone, Copy, PartialEq, Eq, Structural)]
pub struct QueueFullError;

impl QueueFullError {
    /// The error as a text.
    pub fn message(&self) -> (r: String)
        ensures
            r@ == "connection pool queue is full"@,
    {
        "connection pool queue is full".to_owned()
    }
}

/// A waiter that has been let into the queue.
#[derive(Debug)]
pub struct Waiter {
    id: u64,
}

impl Waiter {
    /// By what the waiter is known.
    pub closed spec fn view(&self) -> u64 {
        self.id
    }

    /// By what the waiter is known.
    pub fn id(&self) -> (r: u64)
        ensures
            r == self@,
    {
        self.id
    }
}

/// What the queue holds.
#[verifier::ext_equal]
pub struct QueueState {
    /// Waiters that have not been woken, the first to be woken first.
    pub places: Seq<u64>,
    /// Waiters that have been woken and have not left.
    pub woken: Set<u64>,
    /// By what the next waiter is known.
    pub next_id: u64,
}

impl QueueState {
    /// The queue without waiters.
    pub open spec fn empty() -> QueueState {
        QueueState { places: Seq::empty(), woken: Set::empty(), next_id: 0 }
    }

    /// Waiters are numbered in the order in which they came, each is woken or
    /// not, and the next one gets a number that none of them has.
    pub open spec fn wf(self) -> bool {
        &&& forall|i: int, j: int|
            0 <= i < j < self.places.len() ==> (#[trigger] self.places[i]) < (
            #[trigger] self.places[j])
        &&& forall|i: int|
            0 <= i < self.places.len() ==> (#[trigger] self.places[i]) < self.next_id
                && !self.woken.contains(self.places[i])
        &&& forall|id: u64| #[trigger] self.woken.contains(id) ==> id < self.next_id
        &&& self.woken.finite()
    }

    /// How many waiters there are, woken or not.
    pub open spec fn depth(self) -> nat {
        self.places.len() + self.woken.len()
    }

    /// Whether the waiter known by `id` is there and has not been woken.
    pub open spec fn waits(self, id: u64) -> bool {
        self.places.contains(id)
    }

    /// Whether the waiter known by `id` is there, woken or not.
    pub open spec fn has(self, id: u64) -> bool {
        self.waits(id) || self.woken.contains(id)
    }

    /// Whether one more waiter can be counted and numbered.
    pub open spec fn can_admit(self) -> bool {
        self.depth() < usize::MAX && self.next_id < u64::MAX
    }

    /// The queue after one more waiter is let in, at the end.
    pub open spec fn admitted(self) -> QueueState {
        QueueState {
            places: self.places.push(self.next_id),
            next_id: (self.next_id + 1) as u64,
            ..self
        }
    }

    /// The queue after the first `n` waiters are woken.
    pub open spec fn waking(self, n: int) -> QueueState {
        QueueState {
            places: self.places.skip(n),
            woken: self.woken.union(self.places.take(n).to_set()),
            ..self
        }
    }

    /// How many are woken when `n` are to be.
    pub open spec fn wakeable(self, n: nat) -> nat {
        if n <= self.places.len() {
            n
        } else {
            self.places.len()
        }
    }

    /// The queue after the waiter known by `id` has left.
    pub open spec fn left(self, id: u64) -> QueueState {
        QueueState {
            places: self.places.remove_value(id),
            woken: self.woken.remove(id),
            ..self
        }
    }
}

/// A bounded queue of clients that wait for a connection.
#[derive(Debug)]
pub struct WaitQueue {
    max_depth: usize,
    waiters: VecDeque<u64>,
    woken: HashSet<u64>,
    next_id: u64,
}

impl WaitQueue {
    /// What the queue holds.
    pub closed spec fn view(&self) -> QueueState {
        QueueState { places: self.waiters@, woken: self.woken@, next_id: self.next_id }
    }

    /// How many places there are.
    pub closed spec fn bound(&self) -> nat {
        self.max_depth as nat
    }

    /// No more places are taken than there are.
    pub open spec fn wf(&self) -> bool {
        &&& self@.wf()
        &&& self@.places.len() <= self.bound()
        &&& self@.depth() <= usize::MAX
    }

    /// An empty queue with `max_depth` places.
    pub fn new(max_depth: usize) -> (r: Self)
        ensures
            r.wf(),
            r.bound() == max_depth,
            r@ == QueueState::empty(),
    {
        let r = WaitQueue {
            max_depth,
            waiters: VecDeque::new(),
            woken: HashSet::new(),
            next_id: 0,
        };
        assert(r@ =~= QueueState::empty());
        r
    }

    /// Whether one more waiter can be counted and numbered.
    pub fn can_admit(&self) -> (r: bool)
        requires
            self.wf(),
        ensures
            r == self@.can_admit(),
    {
        self.depth() < usize::MAX && self.next_id < u64::MAX
    }

    /// Let a waiter in at the end, unless every place is taken.
    pub fn enqueue(&mut self) -> (r: Result<Waiter, QueueFullError>)
        requires
            old(self).wf(),
            old(self)@.can_admit(),
        ensures
            final(self).wf(),
            final(self).bound() == old(self).bound(),
            r is Err <==> old(self)@.places.len() >= old(self).bound(),
            r is Err ==> final(self)@ == old(self)@,
            r matches Ok(w) ==> w@ == old(self)@.next_id && final(self)@ == old(self)@.admitted()
                && final(self)@.waits(w@),
    {
        if self.waiters.len() >= self.max_depth {
            return Err(QueueFullError);
        }
        let id = self.next_id;
        self.waiters.push_back(id);
        self.next_id = id + 1;
        assert(self@.places.last() == id);
        Ok(Waiter { id })
    }

    /// Wake the first waiter. Returns by what it is known.
    pub fn notify_one(&mut self) -> (r: Option<u64>)
        requires
            old(self).wf(),
        ensures
            final(self).wf(),
            final(self).bound() == old(self).bound(),
            r == if old(self)@.places.len() > 0 {
                Some(old(self)@.places[0])
            } else {
                None
            },
            final(self)@ == old(self)@.waking(old(self)@.wakeable(1) as int),
    {
        let ghost before = self@;
        let r = self.waiters.pop_front();
        if let Some(id) = r {
            let _ = self.woken.insert(id);
            proof {
                assert(before.places.take(1).to_set() =~= set![id]) by {
                    assert(before.places.take(1)[0] == id);
                }
                assert(self@ =~= before.waking(1));
                assert forall|i: int| 0 <= i < self@.places.len() implies (
                #[trigger] self@.places[i]) < self@.next_id && !self@.woken.contains(
                    self@.places[i],
                ) by {
                    assert(self@.places[i] == before.places[i + 1]);
                }
            }
        } else {
            assert(before.places.take(0).to_set() =~= Set::empty());
            assert(self@ =~= before.waking(0));
        }
        r
    }

    /// Wake the first `n` waiters, or all where there are fewer. Returns by
    /// what they are known.
    pub fn notify_many(&mut self, n: usize) -> (r: Vec<u64>)
        requires
            old(self).wf(),
        ensures
            final(self).wf(),
            final(self).bound() == old(self).bound(),
            r@ == old(self)@.places.take(old(self)@.wakeable(n as nat) as int),
            final(self)@ == old(self)@.waking(old(self)@.wakeable(n as nat) as int),
    {
        let mut out: Vec<u64> = Vec::new();
        let ghost before = self@;
        let mut i: usize = 0;
        proof {
            assert(before.places.take(0) =~= Seq::empty());
            assert(before.places.take(0).to_set() =~= Set::empty());
            assert(self@ =~= before.waking(0));
        }
        while i < n
            invariant
                self.wf(),
                self.bound() == old(self).bound(),
                before == old(self)@,
                i <= n,
                out@ == before.places.take(before.wakeable(i as nat) as int),
                self@ == before.waking(before.wakeable(i as nat) as int),
            decreases n - i,
        {
            let ghost k = before.wakeable(i as nat) as int;
            let ghost mid = self@;
            match self.notify_one() {
                Some(id) => {
                    out.push(id);
                    proof {
                        lemma_waking_goes_on(before, k);
                        assert(out@ =~= before.places.take(k + 1));
                    }
                },
                None => {
                    assert(mid.places.take(0).to_set() =~= Set::empty());
                    assert(self@ =~= mid);
                },
            }
            i += 1;
        }
        out
    }

    /// A waiter leaves, woken or not.
    pub fn leave(&mut self, waiter: Waiter)
        requires
            old(self).wf(),
        ensures
            final(self).wf(),
            final(self).bound() == old(self).bound(),
            final(self)@ == old(self)@.left(waiter@),
            !final(self)@.has(waiter@),
            old(self)@.has(waiter@) ==> final(self)@.depth() == old(self)@.depth() - 1,
            old(self)@.waits(waiter@) ==> final(self)@.places.len() == old(self)@.places.len() - 1,
    {
        let id = waiter.id;
        let ghost before = self@;
        let mut i: usize = 0;
        while i < self.waiters.len() && self.waiters[i] != id
            invariant
                self@ == before,
                self.max_depth == old(self).max_depth,
                i <= before.places.len(),
                forall|j: int| 0 <= j < i ==> before.places[j] != id,
            decreases before.places.len() - i,
        {
            i += 1;
        }
        proof {
            before.places.index_of_first_ensures(id);
        }
        if i < self.waiters.len() {
            let _ = self.waiters.remove(i);
            assert(before.places.contains(before.places[i as int]));
        }
        let _ = self.woken.remove(&id);
        proof {
            assert(self@ =~= before.left(id));
            lemma_left(before, id);
            if before.has(id) {
                law_leaver_frees_its_place(before, id);
            }
        }
    }

    /// How many waiters there are.
    pub fn depth(&self) -> (r: usize)
        requires
            self.wf(),
        ensures
            r == self@.depth(),
    {
        self.waiters.len() + self.woken.len()
    }

    /// How many places there are.
    pub fn max_depth(&self) -> (r: usize)
        ensures
            r == self.bound(),
    {
        self.max_depth
    }
}

/// Waking `k` waiters and then one more is waking `k + 1`.
proof fn lemma_waking_goes_on(s: QueueState, k: int)
    requires
        0 <= k < s.places.len(),
    ensures
        s.waking(k).waking(1) == s.waking(k + 1),
{
    let a = s.waking(k);
    assert(a.places.take(1).to_set() =~= set![s.places[k]]) by {
        assert(a.places.take(1)[0] == s.places[k]);
    }
    assert(s.places.take(k + 1).to_set() =~= s.places.take(k).to_set().insert(s.places[k])) by {
        assert forall|x: u64| #[trigger] s.places.take(k + 1).contains(x) <==> s.places.take(
            k,
        ).contains(x) || x == s.places[k] by {
            if s.places.take(k).contains(x) {
                let j = s.places.take(k).index_of(x);
                assert(s.places.take(k + 1)[j] == x);
            }
            assert(s.places.take(k + 1)[k] == s.places[k]);
            if s.places.take(k + 1).contains(x) && x != s.places[k] {
                let j = s.places.take(k + 1).index_of(x);
                assert(s.places.take(k)[j] == x);
            }
        }
    }
    assert(a.waking(1).places =~= s.waking(k + 1).places);
    assert(a.waking(1).woken =~= s.waking(k + 1).woken);
}

/// The queue stays consistent when a waiter leaves.
proof fn lemma_left(s: QueueState, id: u64)
    requires
        s.wf(),
    ensures
        s.left(id).wf(),
        s.left(id).places.len() <= s.places.len(),
        s.left(id).depth() <= s.depth(),
{
    let t = s.left(id);
    s.places.index_of_first_ensures(id);
    if let Some(k) = s.places.index_of_first(id) {
        assert forall|i: int| 0 <= i < t.places.len() implies (#[trigger] t.places[i]) == s.places[
            if i < k { i } else { i + 1 }
        ] by {}
    }
}

/// Waiters are woken in the order of their places, a new one takes the last
/// place, and it does not change whose turn it is before.
pub proof fn law_first_in_first_out(s: QueueState, i: int)
    requires
        0 <= i < s.places.len(),
    ensures
        s.waking(i).places[0] == s.places[i],
        s.admitted().waking(i).places[0] == s.places[i],
        s.admitted().waking(s.places.len() as int).places == seq![s.next_id],
{
    assert(s.admitted().waking(s.places.len() as int).places =~= seq![s.next_id]);
}

/// A waiter that has left has no place any more, so it is not woken, and the
/// others keep theirs in the same order. The number of waiters falls by one,
/// whether it had been woken or not.
pub proof fn law_leaver_frees_its_place(s: QueueState, id: u64)
    requires
        s.wf(),
        s.has(id),
    ensures
        s.left(id).wf(),
        !s.left(id).has(id),
        s.left(id).depth() == s.depth() - 1,
        s.waits(id) ==> s.left(id).places == s.places.remove(s.places.index_of(id)),
        s.woken.contains(id) ==> s.left(id).places == s.places,
{
    lemma_left(s, id);
    s.places.index_of_first_ensures(id);
    let t = s.left(id);
    if let Some(k) = s.places.index_of_first(id) {
        assert(s.places.index_of(id) == k) by {
            let j = s.places.index_of(id);
            assert(s.places[j] == id && s.places[k] == id);
            if j < k {
                assert(s.places[j] < s.places[k]);
            }
            if k < j {
                assert(s.places[k] < s.places[j]);
            }
        }
        assert(!s.woken.contains(s.places[k]));
        assert(t.woken =~= s.woken);
        assert forall|i: int| 0 <= i < t.places.len() implies t.places[i] != id by {
            let m = if i < k { i } else { i + 1 };
            assert(t.places[i] == s.places[m]);
            if m < k {
                assert(s.places[m] < s.places[k]);
            } else {
                assert(s.places[k] < s.places[m]);
            }
        }
    }
}

/// Waking a waiter does not change how many there are, and a full queue is
/// full of waiters that are still there.
pub proof fn law_depth_counts_waiters(s: QueueState, bound: nat)
    requires
        s.wf(),
    ensures
        s.waking(s.wakeable(1) as int).depth() == s.depth(),
        s.admitted().depth() == s.depth() + 1,
        s.places.len() >= bound ==> s.depth() >= bound,
{
    let n = s.wakeable(1) as int;
    if n == 1 {
        assert(s.places.take(1).to_set() =~= set![s.places[0]]) by {
            assert(s.places.take(1)[0] == s.places[0]);
        }
        assert(s.waking(1).woken =~= s.woken.insert(s.places[0]));
    } else {
        assert(s.places.take(0).to_set() =~= Set::empty());
        assert(s.waking(0).woken =~= s.woken);
    }
}

/// A waiter that is let in gets a number of its own, the last place and a turn
/// after all who wait already; nobody is woken by it.
pub proof fn law_newcomer_is_last(s: QueueState)
    requires
        s.wf(),
        s.can_admit(),
    ensures
        s.admitted().wf(),
        !s.has(s.next_id),
        s.admitted().waits(s.next_id),
        s.admitted().places == s.places + seq![s.next_id],
        s.admitted().woken == s.woken,
        s.admitted().next_id == s.next_id + 1,
{
    assert(s.admitted().places.last() == s.next_id);
    assert(s.admitted().places =~= s.places + seq![s.next_id]);
    if s.waits(s.next_id) {
        let i = s.places.index_of(s.next_id);
        assert(s.places[i] == s.next_id);
    }
}

/// Of `n` waiters that are to be woken as many are as there are; those who are
/// woken came first, are still counted, and the others go on waiting in the same
/// order.
pub proof fn law_first_are_woken(s: QueueState, n: nat, i: int)
    requires
        s.wf(),
        0 <= i < s.places.len(),
    ensures
        s.wakeable(n) <= n,
        s.wakeable(n) == n || s.wakeable(n) == s.places.len(),
        s.wakeable(n) <= s.places.len(),
        i < n <==> s.waking(s.wakeable(n) as int).woken.contains(s.places[i]),
        i < n <==> !s.waking(s.wakeable(n) as int).waits(s.places[i]),
        s.waking(s.wakeable(n) as int).has(s.places[i]),
        s.waking(s.wakeable(n) as int).places == s.places.skip(s.wakeable(n) as int),
        forall|id: u64| #[trigger]
            s.woken.contains(id) ==> s.waking(s.wakeable(n) as int).woken.contains(id),
        s.waking(s.wakeable(n) as int).next_id == s.next_id,
{
    let k = s.wakeable(n) as int;
    let t = s.waking(k);
    if i < k {
        assert(s.places.take(k)[i] == s.places[i]);
        assert(s.places.take(k).contains(s.places[i]));
        if t.waits(s.places[i]) {
            let j = t.places.index_of(s.places[i]);
            assert(t.places[j] == s.places[j + k]);
            assert(s.places[i] < s.places[j + k]);
        }
    } else {
        assert(t.places[i - k] == s.places[i]);
        if s.places.take(k).contains(s.places[i]) {
            let j = s.places.take(k).index_of(s.places[i]);
            assert(s.places[j] == s.places.take(k)[j]);
            assert(s.places[j] < s.places[i]);
        }
    }
}

/// A waiter that leaves takes nobody with it.
pub proof fn law_leaver_leaves_alone(s: QueueState, id: u64, other: u64)
    requires
        s.wf(),
        other != id,
    ensures
        s.left(id).waits(other) == s.waits(other),
        s.left(id).woken.contains(other) == s.woken.contains(other),
        !s.has(id) ==> s.left(id) == s,
        s.left(id).next_id == s.next_id,
{
    s.places.index_of_first_ensures(id);
    let t = s.left(id);
    if let Some(k) = s.places.index_of_first(id) {
        assert(t.places == s.places.remove(k));
        if s.waits(other) {
            let j = s.places.index_of(other);
            assert(s.places[j] == other);
            let m: int = if j < k {
                j
            } else {
                j - 1
            };
            assert(t.places[m] == other);
        }
        if t.waits(other) {
            let j = t.places.index_of(other);
            let m: int = if j < k {
                j
            } else {
                j + 1
            };
            assert(s.places[m] == other);
        }
        assert(s.places.contains(id));
    }
    if !s.has(id) {
        assert(t.woken =~= s.woken);
    }
}

/// A waiter is turned away exactly where every place is taken, and then nothing
/// changes; otherwise it gets the last place.
pub proof fn law_full_queue_turns_away(q: &mut WaitQueue, r: Result<Waiter, QueueFullError>)
    requires
        call_ensures(WaitQueue::enqueue, (q,), r),
    ensures
        r is Err <==> old(q)@.places.len() >= old(q).bound(),
        r is Err ==> final(q)@ == old(q)@,
        r matches Ok(w) ==> w@ == old(q)@.next_id && final(q)@.places == old(q)@.places + seq![w@]
            && final(q)@.woken == old(q)@.woken,
{
}

/// The waiter that is woken is the one that came first; it keeps being counted
/// until it leaves.
pub proof fn law_first_waiter_is_woken(q: &mut WaitQueue, r: Option<u64>)
    requires
        call_ensures(WaitQueue::notify_one, (q,), r),
        old(q).wf(),
    ensures
        r is None <==> old(q)@.places.len() == 0,
        r matches Some(id) ==> id == old(q)@.places[0] && final(q)@.places
            == old(q)@.places.drop_first() && final(q)@.woken == old(q)@.woken.insert(id),
        final(q)@.depth() == old(q)@.depth(),
{
    let s = old(q)@;
    law_depth_counts_waiters(s, 0);
    if s.places.len() > 0 {
        assert(s.places.take(1).to_set() =~= set![s.places[0]]) by {
            assert(s.places.take(1)[0] == s.places[0]);
        }
        assert(final(q)@.places =~= s.places.drop_first());
        assert(final(q)@.woken =~= s.woken.insert(s.places[0]));
    }
}

} // verus!
