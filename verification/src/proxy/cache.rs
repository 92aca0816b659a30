//! Prepared statements and pending executions of a connection, as its
//! extended-protocol messages set them up.
use crate::names::NameMap;
use crate::proxy::params;
use crate::proxy::params::ParamValue;
use crate::text::eq_str;
use std::time::Instant;
use vstd::prelude::*;

verus! {

/// A prepared statement from a Parse message.
#[derive(Debug, Clone)]
pub struct PreparedStatement {
    pub query: String,
    pub param_oids: Vec<u32>,
}

/// An execution from a Bind message that has not been answered yet.
#[derive(Debug)]
pub struct PendingExecution {
    pub query: String,
    pub params: Vec<ParamValue>,
    pub params_incomplete: bool,
    pub started_at: Instant,
}

/// An execution that has not been answered yet, over sequences.
#[verifier::ext_equal]
pub struct Pending {
    pub query: Seq<char>,
    pub params: Seq<params::Param>,
    pub params_incomplete: bool,
    pub started_at: Instant,
}

impl PendingExecution {
    /// The execution over sequences.
    pub open spec fn view(&self) -> Pending {
        Pending {
            query: self.query@,
            params: params::views(self.params@),
            params_incomplete: self.params_incomplete,
            started_at: self.started_at,
        }
    }
}

/// What the cache holds.
#[verifier::ext_equal]
pub struct CacheState {
    /// Statements by name.
    pub statements: Map<Seq<char>, PreparedStatement>,
    /// Names of the statements, the one that was used least recently first.
    pub order: Seq<Seq<char>>,
    /// Executions by portal.
    pub pending: Map<Seq<char>, PendingExecution>,
}

/// `order` without `name`.
pub open spec fn without(order: Seq<Seq<char>>, name: Seq<char>) -> Seq<Seq<char>> {
    if order.contains(name) {
        order.remove(order.index_of(name))
    } else {
        order
    }
}

/// How many of the oldest names are evicted, when `count` statements are held,
/// at most `max_size` are to be, and `available` names can be evicted.
pub open spec fn evicted(count: nat, max_size: nat, available: nat) -> nat {
    if count < max_size {
        0
    } else if count - max_size + 1 <= available {
        (count - max_size + 1) as nat
    } else {
        available
    }
}

impl CacheState {
    /// The order lists each statement once.
    pub open spec fn wf(self) -> bool {
        &&& self.order.no_duplicates()
        &&& self.order.to_set() == self.statements.dom()
        &&& self.statements.dom().finite()
    }

    /// The names that stay when `name` is set anew: the others, but for the
    /// oldest where the cache is full.
    pub open spec fn survivors(self, name: Seq<char>, max_size: nat) -> Seq<Seq<char>> {
        let rest = without(self.order, name);
        rest.skip(evicted(self.statements.dom().len(), max_size, rest.len()) as int)
    }

    /// The cache after `name` is set to `stmt`.
    pub open spec fn insert(
        self,
        name: Seq<char>,
        stmt: PreparedStatement,
        max_size: nat,
    ) -> CacheState {
        let kept = self.survivors(name, max_size);
        CacheState {
            statements: self.statements.restrict(kept.to_set()).insert(name, stmt),
            order: kept.push(name),
            pending: self.pending,
        }
    }

    /// The cache after `name` is looked up.
    pub open spec fn touch(self, name: Seq<char>) -> CacheState {
        if self.statements.dom().contains(name) {
            CacheState { order: without(self.order, name).push(name), ..self }
        } else {
            self
        }
    }

    /// The cache after `name` is removed.
    pub open spec fn remove(self, name: Seq<char>) -> CacheState {
        CacheState {
            statements: self.statements.remove(name),
            order: without(self.order, name),
            pending: self.pending,
        }
    }

    /// The empty cache.
    pub open spec fn empty() -> CacheState {
        CacheState { statements: Map::empty(), order: Seq::empty(), pending: Map::empty() }
    }
}

/// Statements and executions of a connection. When it is full, the statement
/// that was used least recently makes room.
#[derive(Debug)]
pub struct PreparedStatementCache {
    statements: NameMap<PreparedStatement>,
    lru_order: Vec<String>,
    max_size: usize,
    pending: NameMap<PendingExecution>,
}

impl PreparedStatementCache {
    spec fn order(&self) -> Seq<Seq<char>> {
        Seq::new(self.lru_order@.len(), |i: int| self.lru_order@[i]@)
    }

    /// What the cache holds.
    pub closed spec fn view(&self) -> CacheState {
        CacheState {
            statements: self.statements@,
            order: self.order(),
            pending: self.pending@,
        }
    }

    /// How many statements are to be held at most.
    pub closed spec fn capacity(&self) -> nat {
        self.max_size as nat
    }

    /// Each name is held once.
    pub closed spec fn names_once(&self) -> bool {
        &&& self.statements.wf()
        &&& self.pending.wf()
    }

    /// Each name is held once, and the order lists the names.
    pub open spec fn wf(&self) -> bool {
        &&& self.names_once()
        &&& self@.wf()
    }

    /// An empty cache for `max_size` statements.
    pub fn new(max_size: usize) -> (r: Self)
        ensures
            r.wf(),
            r@ == CacheState::empty(),
            r.capacity() == max_size,
    {
        let r = PreparedStatementCache {
            statements: NameMap::new(),
            lru_order: Vec::new(),
            max_size,
            pending: NameMap::new(),
        };
        proof {
            assert(r.order() =~= Seq::empty());
            assert(r.order().to_set() =~= Set::empty());
            assert(r@ =~= CacheState::empty());
        }
        r
    }

    /// Take `name` out of the order.
    fn forget(&mut self, name: &str)
        requires
            old(self).order().no_duplicates(),
        ensures
            final(self).order() == without(old(self).order(), name@),
            final(self).statements == old(self).statements,
            final(self).pending == old(self).pending,
            final(self).max_size == old(self).max_size,
    {
        let ghost before = self.order();
        let mut i: usize = 0;
        while i < self.lru_order.len()
            invariant
                i <= self.lru_order@.len(),
                self.order() == before,
                self.statements == old(self).statements,
                self.pending == old(self).pending,
                self.max_size == old(self).max_size,
                before == old(self).order(),
                before.no_duplicates(),
                forall|j: int| 0 <= j < i ==> #[trigger] before[j] != name@,
            decreases self.lru_order.len() - i,
        {
            assert(before[i as int] == self.lru_order@[i as int]@);
            if eq_str(self.lru_order[i].as_str(), name) {
                let _ = self.lru_order.remove(i);
                proof {
                    assert(before.contains(name@));
                    assert(before.index_of(name@) == i);
                    assert(self.order() =~= before.remove(i as int));
                }
                return;
            }
            i += 1;
        }
        assert(!before.contains(name@));
    }
}

proof fn lemma_without(order: Seq<Seq<char>>, name: Seq<char>)
    requires
        order.no_duplicates(),
    ensures
        without(order, name).no_duplicates(),
        !without(order, name).contains(name),
        without(order, name).to_set() == order.to_set().remove(name),
        without(order, name).len() == if order.contains(name) {
            order.len() - 1
        } else {
            order.len() as int
        },
{
    let w = without(order, name);
    if order.contains(name) {
        let k = order.index_of(name);
        assert forall|x: Seq<char>| w.contains(x) <==> order.contains(x) && x != name by {
            if w.contains(x) {
                let j = w.index_of(x);
                let m = if j < k { j } else { j + 1 };
                assert(order[m] == x);
            }
            if order.contains(x) && x != name {
                let j = order.index_of(x);
                let m = if j < k { j } else { j - 1 };
                assert(w[m] == x);
            }
        }
    }
    assert(w.to_set() =~= order.to_set().remove(name));
}

/// A name is among the first `k` or among the others, not both.
proof fn lemma_take_skip(order: Seq<Seq<char>>, k: int, x: Seq<char>)
    requires
        order.no_duplicates(),
        0 <= k <= order.len(),
    ensures
        order.contains(x) <==> order.take(k).contains(x) || order.skip(k).contains(x),
        !(order.take(k).contains(x) && order.skip(k).contains(x)),
{
    if order.contains(x) {
        let j = order.index_of(x);
        if j < k {
            assert(order.take(k)[j] == x);
        } else {
            assert(order.skip(k)[j - k] == x);
        }
    }
    if order.take(k).contains(x) {
        let i = order.take(k).index_of(x);
        assert(order[i] == x);
    }
    if order.skip(k).contains(x) {
        let j = order.skip(k).index_of(x);
        assert(order[j + k] == x);
    }
}

/// Setting a statement keeps the cache consistent, and within its size.
pub proof fn lemma_insert(s: CacheState, name: Seq<char>, stmt: PreparedStatement, max_size: nat)
    requires
        s.wf(),
    ensures
        s.insert(name, stmt, max_size).wf(),
        s.insert(name, stmt, max_size).order.len() <= if max_size == 0 {
            1
        } else {
            max_size
        },
        s.order.len() == s.statements.dom().len(),
{
    let t = s.insert(name, stmt, max_size);
    let rest = without(s.order, name);
    let kept = s.survivors(name, max_size);
    lemma_without(s.order, name);
    s.order.unique_seq_to_set();
    let k = evicted(s.statements.dom().len(), max_size, rest.len()) as int;
    assert forall|x: Seq<char>| t.order.contains(x) <==> t.statements.dom().contains(x) by {
        lemma_take_skip(rest, k, x);
        if kept.contains(x) {
            let j = kept.index_of(x);
            assert(t.order[j] == x);
            assert(rest.to_set().contains(x));
        }
        assert(t.order[kept.len() as int] == name);
    }
    lemma_take_skip(rest, k, name);
    assert(!rest.to_set().contains(name));
    assert(t.order.to_set() =~= t.statements.dom());
    assert(t.order.no_duplicates()) by {
        assert forall|i: int, j: int| 0 <= i < j < t.order.len() implies t.order[i]
            != t.order[j] by {
            if j == kept.len() {
                assert(kept[i] == t.order[i]);
                assert(kept.contains(t.order[i]));
            } else {
                assert(rest[i + k] == t.order[i] && rest[j + k] == t.order[j]);
            }
        }
    }
    t.order.unique_seq_to_set();
}

impl PreparedStatementCache {
    /// Set a statement. Where the cache is full, the oldest make room.
    pub fn insert_statement(&mut self, name: String, stmt: PreparedStatement)
        requires
            old(self).wf(),
        ensures
            final(self).wf(),
            final(self).capacity() == old(self).capacity(),
            final(self)@ == old(self)@.insert(name@, stmt, old(self).capacity()),
    {
        let ghost s0 = self@;
        let ghost rest = without(s0.order, name@);
        let ghost n = s0.statements.dom().len();
        proof {
            lemma_without(s0.order, name@);
            assert(s0.order.contains(name@) == s0.order.to_set().contains(name@));
            s0.order.unique_seq_to_set();
        }
        if self.statements.contains(name.as_str()) {
            self.forget(name.as_str());
        }
        assert(self.order() == rest);
        let ghost mut k: int = 0;
        proof {
            assert(rest.skip(0) =~= rest);
            assert(rest.take(0).to_set() =~= Set::empty());
            assert(s0.statements.remove_keys(Set::empty()) =~= s0.statements);
        }
        while self.statements.len() >= self.max_size && self.lru_order.len() > 0
            invariant
                self.statements.wf(),
                self.pending.wf(),
                self.pending == old(self).pending,
                self.max_size == old(self).max_size,
                rest.no_duplicates(),
                0 <= k <= rest.len(),
                self.order() == rest.skip(k),
                self.statements@ == s0.statements.remove_keys(rest.take(k).to_set()),
                self.statements@.dom().len() == n - k,
                k > 0 ==> n - (k - 1) >= self.max_size,
                rest.len() <= n,
                forall|x: Seq<char>| #[trigger]
                    rest.contains(x) ==> s0.statements.dom().contains(x),
            decreases rest.len() - k,
        {
            let ghost before = self.order();
            let ghost m = self.statements@;
            assert(before.len() == self.lru_order@.len());
            assert(before.len() == rest.len() - k);
            let oldest = self.lru_order.remove(0);
            proof {
                assert(oldest@ == before[0]);
                assert(before[0] == rest[k]);
                assert(rest.contains(rest[k]));
                self.statements.lemma_len();
                lemma_take_skip(rest, k, rest[k]);
                assert(rest.skip(k)[0] == rest[k]);
                assert(rest.skip(k).contains(rest[k]));
                assert(m.dom().contains(rest[k]));
            }
            let _ = self.statements.remove(oldest.as_str());
            proof {
                assert(self.order() =~= before.skip(1));
                assert(before.skip(1) =~= rest.skip(k + 1));
                assert(rest.take(k + 1) =~= rest.take(k).push(rest[k]));
                assert(rest.take(k + 1).to_set() =~= rest.take(k).to_set().insert(rest[k])) by {
                    assert forall|x: Seq<char>| rest.take(k + 1).contains(x) <==> rest.take(
                        k,
                    ).contains(x) || x == rest[k] by {
                        if rest.take(k).contains(x) {
                            let j = rest.take(k).index_of(x);
                            assert(rest.take(k + 1)[j] == x);
                        }
                        if x == rest[k] {
                            assert(rest.take(k + 1)[k] == x);
                        }
                        if rest.take(k + 1).contains(x) && x != rest[k] {
                            let j = rest.take(k + 1).index_of(x);
                            assert(rest.take(k)[j] == x);
                        }
                    }
                }
                assert(self.statements@ =~= s0.statements.remove_keys(
                    rest.take(k + 1).to_set(),
                ));
                k = k + 1;
            }
        }
        let ghost kept = s0.survivors(name@, self.max_size as nat);
        let ghost m = self.statements@;
        proof {
            assert(k == evicted(n, self.max_size as nat, rest.len()));
            assert(kept == rest.skip(k));
        }
        let ghost before = self.order();
        self.statements.insert(name.clone(), stmt);
        self.lru_order.push(name);
        proof {
            assert(self.order() =~= before.push(name@));
            let want = s0.insert(name@, stmt, self.max_size as nat);
            assert forall|x: Seq<char>| self.statements@.dom().contains(x)
                <==> want.statements.dom().contains(x) by {
                lemma_take_skip(rest, k, x);
                assert(rest.to_set().contains(x) == rest.contains(x));
                assert(kept.to_set().contains(x) == kept.contains(x));
            }
            assert forall|x: Seq<char>| self.statements@.dom().contains(x) implies
                self.statements@[x] == want.statements[x] by {
                lemma_take_skip(rest, k, x);
                assert(rest.to_set().contains(x) == rest.contains(x));
                assert(kept.to_set().contains(x) == kept.contains(x));
            }
            assert(self.statements@ =~= want.statements);
            assert(self@ =~= want);
            lemma_insert(s0, name@, stmt, self.max_size as nat);
        }
    }

    /// The statement `name`, which becomes the one used most recently.
    pub fn get_statement(&mut self, name: &str) -> (r: Option<&PreparedStatement>)
        requires
            old(self).wf(),
        ensures
            final(self).wf(),
            final(self).capacity() == old(self).capacity(),
            final(self)@ == old(self)@.touch(name@),
            r is Some <==> old(self)@.statements.dom().contains(name@),
            r matches Some(s) ==> *s == old(self)@.statements[name@],
    {
        if self.statements.contains(name) {
            let ghost s0 = self@;
            self.forget(name);
            let ghost before = self.order();
            self.lru_order.push(name.to_owned());
            proof {
                assert(self.order() =~= before.push(name@));
                lemma_touch(s0, name@);
            }
            self.statements.get(name)
        } else {
            None
        }
    }

    /// Take the statement `name` out.
    pub fn remove_statement(&mut self, name: &str)
        requires
            old(self).wf(),
        ensures
            final(self).wf(),
            final(self).capacity() == old(self).capacity(),
            final(self)@ == old(self)@.remove(name@),
    {
        let ghost s0 = self@;
        let _ = self.statements.remove(name);
        self.forget(name);
        proof {
            lemma_without(s0.order, name@);
        }
    }

    /// Set the execution that is pending for a portal.
    pub fn set_pending(&mut self, portal: String, pending: PendingExecution)
        requires
            old(self).wf(),
        ensures
            final(self).wf(),
            final(self).capacity() == old(self).capacity(),
            final(self)@ == (CacheState {
                pending: old(self)@.pending.insert(portal@, pending),
                ..old(self)@
            }),
    {
        self.pending.insert(portal, pending);
    }

    /// Take the execution that is pending for a portal.
    pub fn take_pending(&mut self, portal: &str) -> (r: Option<PendingExecution>)
        requires
            old(self).wf(),
        ensures
            final(self).wf(),
            final(self).capacity() == old(self).capacity(),
            final(self)@ == (CacheState {
                pending: old(self)@.pending.remove(portal@),
                ..old(self)@
            }),
            r is Some <==> old(self)@.pending.dom().contains(portal@),
            r matches Some(p) ==> p == old(self)@.pending[portal@],
    {
        self.pending.remove(portal)
    }

    /// Whether an execution is pending for a portal.
    pub fn has_pending(&self, portal: &str) -> (r: bool)
        requires
            self.wf(),
        ensures
            r == self@.pending.dom().contains(portal@),
    {
        self.pending.contains(portal)
    }

    /// Drop the execution that is pending for a portal.
    pub fn clear_pending(&mut self, portal: &str)
        requires
            old(self).wf(),
        ensures
            final(self).wf(),
            final(self).capacity() == old(self).capacity(),
            final(self)@ == (CacheState {
                pending: old(self)@.pending.remove(portal@),
                ..old(self)@
            }),
    {
        let _ = self.pending.remove(portal);
    }

    /// Drop everything.
    pub fn clear(&mut self)
        requires
            old(self).wf(),
        ensures
            final(self).wf(),
            final(self).capacity() == old(self).capacity(),
            final(self)@ == CacheState::empty(),
    {
        self.statements.clear();
        self.lru_order.clear();
        self.pending.clear();
        proof {
            assert(self.order() =~= Seq::empty());
            assert(self.order().to_set() =~= Set::empty());
            assert(self@ =~= CacheState::empty());
        }
    }

    /// The number of statements.
    pub fn len(&self) -> (r: usize)
        requires
            self.wf(),
        ensures
            r == self@.statements.dom().len(),
    {
        self.statements.len()
    }

    /// Whether there is no statement.
    pub fn is_empty(&self) -> (r: bool)
        requires
            self.wf(),
        ensures
            r == (self@.statements.dom().len() == 0),
    {
        self.statements.is_empty()
    }
}

/// Looking a statement up keeps the cache consistent.
pub proof fn lemma_touch(s: CacheState, name: Seq<char>)
    requires
        s.wf(),
    ensures
        s.touch(name).wf(),
{
    if s.statements.dom().contains(name) {
        let w = without(s.order, name);
        let t = w.push(name);
        lemma_without(s.order, name);
        assert forall|x: Seq<char>| t.contains(x) <==> s.statements.dom().contains(x) by {
            assert(s.order.to_set().contains(x) == s.statements.dom().contains(x));
            assert(w.to_set().contains(x) == w.contains(x));
            if w.contains(x) {
                let j = w.index_of(x);
                assert(t[j] == x);
            }
            assert(t[w.len() as int] == name);
        }
        assert(t.to_set() =~= s.statements.dom());
        assert(t.no_duplicates()) by {
            assert forall|i: int, j: int| 0 <= i < j < t.len() implies t[i] != t[j] by {
                if j == w.len() {
                    assert(w.contains(w[i]));
                }
            }
        }
    }
}

/// What was set last is found, and is the last to be evicted.
pub proof fn law_insert_then_get(
    s: CacheState,
    name: Seq<char>,
    stmt: PreparedStatement,
    max_size: nat,
)
    requires
        s.wf(),
    ensures
        s.insert(name, stmt, max_size).statements.dom().contains(name),
        s.insert(name, stmt, max_size).statements[name] == stmt,
        s.insert(name, stmt, max_size).order.last() == name,
{
}

/// The cache never holds more than its size, but for a cache of size 0, which
/// holds the statement that was set last.
pub proof fn law_size_is_bounded(
    s: CacheState,
    name: Seq<char>,
    stmt: PreparedStatement,
    max_size: nat,
)
    requires
        s.wf(),
    ensures
        s.insert(name, stmt, max_size).wf(),
        s.insert(name, stmt, max_size).statements.dom().len() <= if max_size == 0 {
            1
        } else {
            max_size
        },
{
    lemma_insert(s, name, stmt, max_size);
    s.insert(name, stmt, max_size).order.unique_seq_to_set();
}

/// A new statement in a full cache evicts the statement that was used least
/// recently, and no other.
pub proof fn law_oldest_is_evicted(
    s: CacheState,
    name: Seq<char>,
    stmt: PreparedStatement,
    max_size: nat,
    other: Seq<char>,
)
    requires
        s.wf(),
        max_size > 0,
        s.statements.dom().len() == max_size,
        !s.statements.dom().contains(name),
        s.statements.dom().contains(other),
    ensures
        s.insert(name, stmt, max_size).statements.dom().contains(other) <==> other != s.order[0],
{
    let rest = without(s.order, name);
    assert(s.order.contains(name) == s.order.to_set().contains(name));
    assert(rest == s.order);
    s.order.unique_seq_to_set();
    let kept = s.survivors(name, max_size);
    assert(kept == s.order.skip(1));
    assert(s.order.to_set().contains(other));
    let j = s.order.index_of(other);
    assert(s.order[j] == other);
    if j > 0 {
        assert(kept[j - 1] == other);
    }
    assert(kept.to_set().contains(other) == kept.contains(other));
    if kept.contains(other) {
        let m = kept.index_of(other);
        assert(s.order[m + 1] == other);
    }
}

/// Below its size the cache evicts nothing.
pub proof fn law_nothing_is_evicted_below_size(
    s: CacheState,
    name: Seq<char>,
    stmt: PreparedStatement,
    max_size: nat,
)
    requires
        s.wf(),
        s.statements.dom().len() < max_size,
    ensures
        s.insert(name, stmt, max_size).statements == s.statements.insert(name, stmt),
{
    let rest = without(s.order, name);
    let kept = s.survivors(name, max_size);
    lemma_without(s.order, name);
    assert(kept =~= rest);
    assert(s.insert(name, stmt, max_size).statements =~= s.statements.insert(name, stmt));
}

/// Setting, looking up and removing a statement leave the executions alone, and
/// leave the other statements that stay as they were. Looking one up changes
/// none; removing one removes no other.
pub proof fn law_other_statements_stay(
    s: CacheState,
    name: Seq<char>,
    stmt: PreparedStatement,
    max_size: nat,
    other: Seq<char>,
)
    requires
        s.wf(),
        other != name,
    ensures
        s.insert(name, stmt, max_size).pending == s.pending,
        s.touch(name).pending == s.pending,
        s.remove(name).pending == s.pending,
        s.insert(name, stmt, max_size).statements.dom().contains(other) ==> {
            &&& s.statements.dom().contains(other)
            &&& s.insert(name, stmt, max_size).statements[other] == s.statements[other]
        },
        s.touch(name).statements == s.statements,
        !s.remove(name).statements.dom().contains(name),
        s.remove(name).statements.dom().contains(other) == s.statements.dom().contains(other),
        s.statements.dom().contains(other) ==> s.remove(name).statements[other]
            == s.statements[other],
{
}

/// Where `x` stands in an order without `name`.
proof fn lemma_without_index(order: Seq<Seq<char>>, name: Seq<char>, x: Seq<char>)
    requires
        order.no_duplicates(),
        order.contains(x),
        x != name,
    ensures
        without(order, name).contains(x),
        order.contains(name) ==> without(order, name).index_of(x) == if order.index_of(x)
            < order.index_of(name) {
            order.index_of(x)
        } else {
            order.index_of(x) - 1
        },
{
    lemma_without(order, name);
    let w = without(order, name);
    if order.contains(name) {
        let k = order.index_of(name);
        let j = order.index_of(x);
        let m: int = if j < k {
            j
        } else {
            j - 1
        };
        assert(w[m] == x);
        let i = w.index_of(x);
        assert(w[i] == x);
        assert(i == m);
    }
}

/// A statement that is looked up becomes the one that was used most recently;
/// the others keep their order among themselves, and so they do when it is
/// removed.
pub proof fn law_lookup_is_a_use(s: CacheState, name: Seq<char>, a: Seq<char>, b: Seq<char>)
    requires
        s.wf(),
        s.statements.dom().contains(a),
        s.statements.dom().contains(b),
        a != name,
        b != name,
        s.order.index_of(a) < s.order.index_of(b),
    ensures
        s.statements.dom().contains(name) ==> s.touch(name).order.last() == name,
        s.touch(name).order.index_of(a) < s.touch(name).order.index_of(b),
        s.remove(name).order.index_of(a) < s.remove(name).order.index_of(b),
{
    assert(s.order.to_set().contains(a) && s.order.to_set().contains(b));
    lemma_without(s.order, name);
    lemma_without_index(s.order, name, a);
    lemma_without_index(s.order, name, b);
    lemma_touch(s, name);
    if s.statements.dom().contains(name) {
        let w = without(s.order, name);
        let t = s.touch(name).order;
        assert(s.order.to_set().contains(name));
        assert(t[w.index_of(a)] == a);
        assert(t[w.index_of(b)] == b);
        assert(t[t.index_of(a)] == a);
        assert(t[t.index_of(b)] == b);
    }
}

/// When a statement is set while the cache is full, one of the others makes
/// room: the one that was used least recently, whether or not the statement
/// was there before.
pub proof fn law_least_recently_used_makes_room(
    s: CacheState,
    name: Seq<char>,
    stmt: PreparedStatement,
    max_size: nat,
    other: Seq<char>,
)
    requires
        s.wf(),
        max_size > 0,
        s.statements.dom().len() == max_size,
        s.statements.dom().contains(other),
        other != name,
    ensures
        s.insert(name, stmt, max_size).statements.dom().contains(other) <==> exists|older: Seq<
            char,
        >|
            #![trigger s.order.index_of(older)]
            older != name && s.statements.dom().contains(older) && s.order.index_of(older)
                < s.order.index_of(other),
{
    let rest = without(s.order, name);
    let kept = s.survivors(name, max_size);
    lemma_without(s.order, name);
    assert(s.order.to_set().contains(other));
    lemma_without_index(s.order, name, other);
    s.order.unique_seq_to_set();
    assert(rest.len() >= 1);
    assert(kept == rest.skip(1));
    let m = rest.index_of(other);
    assert(rest[m] == other);
    assert(kept.to_set().contains(other) == kept.contains(other));
    if m > 0 {
        assert(kept[m - 1] == other);
        let older = rest[0];
        assert(rest.contains(older));
        assert(rest.to_set().contains(older));
        assert(s.order.to_set().contains(older));
        lemma_without_index(s.order, name, older);
        assert(rest.index_of(older) == 0) by {
            assert(rest[rest.index_of(older)] == rest[0]);
        }
        assert(s.order.index_of(older) < s.order.index_of(other)) by {
            assert(s.order[s.order.index_of(older)] == older);
            if s.order.contains(name) {
                let k = s.order.index_of(name);
                assert(s.order[k] == name);
            }
        }
    } else {
        if kept.contains(other) {
            let i = kept.index_of(other);
            assert(rest[i + 1] == other);
        }
        assert forall|older: Seq<char>|
            #![trigger s.order.index_of(older)]
            older != name && s.statements.dom().contains(older) implies s.order.index_of(older)
            >= s.order.index_of(other) by {
            assert(s.order.to_set().contains(older));
            lemma_without_index(s.order, name, older);
            assert(rest[rest.index_of(older)] == older);
            assert(s.order[s.order.index_of(older)] == older);
            if s.order.contains(name) {
                assert(s.order[s.order.index_of(name)] == name);
                assert(s.order[s.order.index_of(other)] == other);
            }
        }
    }
}

/// A statement that was just looked up is still there after another is set,
/// in a cache that has room for both.
pub proof fn law_used_statement_survives(
    s: CacheState,
    used: Seq<char>,
    name: Seq<char>,
    stmt: PreparedStatement,
    max_size: nat,
)
    requires
        s.wf(),
        2 <= max_size,
        s.statements.dom().len() <= max_size,
        s.statements.dom().contains(used),
        !s.statements.dom().contains(name),
    ensures
        s.touch(used).insert(name, stmt, max_size).statements.dom().contains(used),
        s.touch(used).insert(name, stmt, max_size).statements[used] == s.statements[used],
{
    let t = s.touch(used);
    lemma_touch(s, used);
    if s.statements.dom().len() < max_size {
        law_nothing_is_evicted_below_size(t, name, stmt, max_size);
    } else {
        law_oldest_is_evicted(t, name, stmt, max_size, used);
        t.order.unique_seq_to_set();
        assert(t.order[t.order.len() - 1] == used);
        assert(t.order[0] != used);
    }
}

/// An execution that is set for a portal is the one that is taken for it, once;
/// those of other portals, and the statements, stay.
pub proof fn law_execution_is_taken_once(
    a: &mut PreparedStatementCache,
    portal: String,
    pending: PendingExecution,
    b: &mut PreparedStatementCache,
    name: &str,
    r: Option<PendingExecution>,
    other: Seq<char>,
)
    requires
        call_ensures(PreparedStatementCache::set_pending, (a, portal, pending), ()),
        old(b)@ == final(a)@,
        name@ == portal@,
        call_ensures(PreparedStatementCache::take_pending, (b, name), r),
        other != portal@,
    ensures
        r == Some(pending),
        !final(b)@.pending.dom().contains(portal@),
        final(b)@.pending.dom().contains(other) == old(a)@.pending.dom().contains(other),
        old(a)@.pending.dom().contains(other) ==> final(b)@.pending[other]
            == old(a)@.pending[other],
        final(b)@.statements == old(a)@.statements,
        final(b)@.order == old(a)@.order,
{
}

/// A statement that was set is found, until it is removed.
pub proof fn law_statement_is_found_until_removed(
    a: &mut PreparedStatementCache,
    name: String,
    stmt: PreparedStatement,
    b: &mut PreparedStatementCache,
    key: &str,
    found: Option<&PreparedStatement>,
    c: &mut PreparedStatementCache,
)
    requires
        old(a).wf(),
        key@ == name@,
        call_ensures(PreparedStatementCache::insert_statement, (a, name, stmt), ()),
        old(b)@ == final(a)@,
        call_ensures(PreparedStatementCache::get_statement, (b, key), found),
        old(c)@ == final(b)@,
        call_ensures(PreparedStatementCache::remove_statement, (c, key), ()),
    ensures
        found matches Some(s) && *s == stmt,
        final(b)@.statements == final(a)@.statements,
        !final(c)@.statements.dom().contains(name@),
        final(c)@.statements == final(b)@.statements.remove(name@),
{
}

} // verus!
