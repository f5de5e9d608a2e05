//! Bounded FIFO cache of idle connections to the proxy core. Entries carry the time
//! they were last released; an entry is reused only while it is younger than the
//! idle timeout and a caller-supplied liveness probe accepts it.

use vstd::prelude::*;
use std::collections::VecDeque;

verus! {

/// Most idle connections the pool keeps.
pub const MAX_POOL_SIZE: usize = 100;

/// Idle age from which a pooled connection is no longer reused (milliseconds).
pub const IDLE_TIMEOUT_MS: u64 = 500;

/// An idle connection and the monotonic time (milliseconds) of its last release.
pub struct PooledConnection<C> {
    pub conn: C,
    pub last_used_ms: u64,
}

/// Milliseconds elapsed since `p` was released; a clock reading earlier than the
/// release counts as no time elapsed.
pub open spec fn age_ms<C>(p: PooledConnection<C>, now_ms: u64) -> nat {
    if now_ms >= p.last_used_ms {
        (now_ms - p.last_used_ms) as nat
    } else {
        0
    }
}

/// Young enough to be reused.
pub open spec fn is_fresh<C>(p: PooledConnection<C>, now_ms: u64) -> bool {
    age_ms(p, now_ms) < IDLE_TIMEOUT_MS
}

/// `p` passed both checks: it is fresh and the probe answered `true` for it.
pub open spec fn passes<C, F: Fn(&C) -> bool>(p: PooledConnection<C>, now_ms: u64, probe: F) -> bool {
    is_fresh(p, now_ms) && probe.ensures((&p.conn,), true)
}

/// `p` failed a check: it is stale, or the probe answered `false` for it.
pub open spec fn fails<C, F: Fn(&C) -> bool>(p: PooledConnection<C>, now_ms: u64, probe: F) -> bool {
    !is_fresh(p, now_ms) || probe.ensures((&p.conn,), false)
}

/// The pool after `conn` is released at `now_ms`: appended at the back while there
/// is room, otherwise dropped.
pub open spec fn released<C>(s: Seq<PooledConnection<C>>, conn: C, now_ms: u64) -> Seq<PooledConnection<C>> {
    if s.len() < MAX_POOL_SIZE {
        s.push(PooledConnection { conn, last_used_ms: now_ms })
    } else {
        s
    }
}

/// What `acquire` may do to a pool holding `old`: pop entries from the front,
/// discarding each that fails a check, and hand out the first that passes (`Some`),
/// or empty the pool when none passes (`None`, and a new connection is to be opened).
pub open spec fn acquired<C, F: Fn(&C) -> bool>(
    old: Seq<PooledConnection<C>>,
    new: Seq<PooledConnection<C>>,
    r: Option<C>,
    now_ms: u64,
    probe: F,
) -> bool {
    match r {
        Some(c) => exists|k: int|
            0 <= k < old.len() && old[k].conn == c && new == old.subrange(k + 1, old.len() as int)
                && passes(#[trigger] old[k], now_ms, probe) && forall|i: int|
                0 <= i < k ==> fails(#[trigger] old[i], now_ms, probe),
        None => new.len() == 0 && forall|i: int| 0 <= i < old.len() ==> fails(#[trigger] old[i], now_ms, probe),
    }
}

/// The entries of `s` whose flag in `keep` is set, in their order.
pub open spec fn select<T>(s: Seq<T>, keep: Seq<bool>) -> Seq<T>
    decreases s.len(),
{
    if s.len() == 0 {
        Seq::empty()
    } else {
        let rest = select(s.drop_last(), keep.drop_last());
        if keep.last() {
            rest.push(s.last())
        } else {
            rest
        }
    }
}

/// What a health sweep may do to a pool holding `old`: keep, in order, exactly the
/// entries flagged in some `keep` where every kept entry passed both checks and
/// every removed one failed one.
pub open spec fn swept<C, F: Fn(&C) -> bool>(
    old: Seq<PooledConnection<C>>,
    new: Seq<PooledConnection<C>>,
    now_ms: u64,
    probe: F,
) -> bool {
    exists|keep: Seq<bool>|
        keep.len() == old.len() && new == select(old, keep) && forall|i: int|
            0 <= i < old.len() ==> (if #[trigger] keep[i] {
                passes(old[i], now_ms, probe)
            } else {
                fails(old[i], now_ms, probe)
            })
}

proof fn lemma_select_len<T>(s: Seq<T>, keep: Seq<bool>)
    ensures
        select(s, keep).len() <= s.len(),
    decreases s.len(),
{
    if s.len() > 0 {
        lemma_select_len(s.drop_last(), keep.drop_last());
    }
}

/// No step on a pool within capacity takes it over capacity: a release, an
/// acquire, or a health sweep.
pub proof fn lemma_capacity_kept<C, F: Fn(&C) -> bool>(
    s: Seq<PooledConnection<C>>,
    conn: C,
    now_ms: u64,
    probe: F,
    after: Seq<PooledConnection<C>>,
    r: Option<C>,
)
    requires
        s.len() <= MAX_POOL_SIZE,
    ensures
        released(s, conn, now_ms).len() <= MAX_POOL_SIZE,
        acquired(s, after, r, now_ms, probe) ==> after.len() <= MAX_POOL_SIZE,
        swept(s, after, now_ms, probe) ==> after.len() <= MAX_POOL_SIZE,
{
    if swept(s, after, now_ms, probe) {
        let keep = choose|keep: Seq<bool>|
            keep.len() == s.len() && after == select(s, keep) && forall|i: int|
                0 <= i < s.len() ==> (if #[trigger] keep[i] {
                    passes(s[i], now_ms, probe)
                } else {
                    fails(s[i], now_ms, probe)
                });
        lemma_select_len(s, keep);
    }
}

/// Releasing `a` and then `b` into an empty pool, then acquiring twice with both
/// calls served from the pool, hands out `a` first and `b` second.
pub proof fn lemma_fifo_reuse<C, F: Fn(&C) -> bool, G: Fn(&C) -> bool>(
    a: C,
    b: C,
    t_a: u64,
    t_b: u64,
    now1: u64,
    probe1: F,
    now2: u64,
    probe2: G,
    after_first: Seq<PooledConnection<C>>,
    after_second: Seq<PooledConnection<C>>,
    r1: Option<C>,
    r2: Option<C>,
)
    requires
        acquired(released(released(Seq::empty(), a, t_a), b, t_b), after_first, r1, now1, probe1),
        acquired(after_first, after_second, r2, now2, probe2),
        r1 is Some,
        r2 is Some,
    ensures
        r1 == Some(a),
        r2 == Some(b),
{
    let s = released(released(Seq::<PooledConnection<C>>::empty(), a, t_a), b, t_b);
    assert(s =~= seq![PooledConnection { conn: a, last_used_ms: t_a }, PooledConnection { conn: b, last_used_ms: t_b }]);
    let k = choose|k: int|
        0 <= k < s.len() && s[k].conn == r1.unwrap() && after_first == s.subrange(k + 1, s.len() as int)
            && passes(#[trigger] s[k], now1, probe1) && forall|i: int|
            0 <= i < k ==> fails(#[trigger] s[i], now1, probe1);
    if k == 1 {
        assert(after_first.len() == 0);
    }
    assert(k == 0);
    assert(after_first =~= seq![PooledConnection { conn: b, last_used_ms: t_b }]);
}

/// An entry whose idle age has reached the timeout is never handed out: when every
/// pooled entry is that old, `acquire` discards them all and reports that a new
/// connection must be opened.
pub proof fn lemma_stale_never_reused<C, F: Fn(&C) -> bool>(
    old: Seq<PooledConnection<C>>,
    new: Seq<PooledConnection<C>>,
    r: Option<C>,
    now_ms: u64,
    probe: F,
)
    requires
        acquired(old, new, r, now_ms, probe),
        forall|i: int| 0 <= i < old.len() ==> age_ms(#[trigger] old[i], now_ms) >= IDLE_TIMEOUT_MS,
    ensures
        r is None,
        new.len() == 0,
{
    if r is Some {
        let k = choose|k: int|
            0 <= k < old.len() && old[k].conn == r.unwrap() && new == old.subrange(k + 1, old.len() as int)
                && passes(#[trigger] old[k], now_ms, probe) && forall|i: int|
                0 <= i < k ==> fails(#[trigger] old[i], now_ms, probe);
        assert(age_ms(old[k], now_ms) >= IDLE_TIMEOUT_MS);
    }
}

impl<C> PooledConnection<C> {
    /// Whether this entry is still young enough to be reused at `now_ms`.
    pub fn is_fresh(&self, now_ms: u64) -> (r: bool)
        ensures
            r == is_fresh(*self, now_ms),
    {
        if now_ms >= self.last_used_ms {
            now_ms - self.last_used_ms < IDLE_TIMEOUT_MS
        } else {
            true
        }
    }
}

/// The pool: idle connections, oldest release first.
pub struct ConnectionPool<C> {
    entries: VecDeque<PooledConnection<C>>,
}

impl<C> View for ConnectionPool<C> {
    type V = Seq<PooledConnection<C>>;

    closed spec fn view(&self) -> Seq<PooledConnection<C>> {
        self.entries@
    }
}

impl<C> ConnectionPool<C> {
    /// The pool never holds more than `MAX_POOL_SIZE` entries.
    pub open spec fn wf(&self) -> bool {
        self@.len() <= MAX_POOL_SIZE
    }

    pub fn new() -> (r: ConnectionPool<C>)
        ensures
            r@.len() == 0,
            r.wf(),
    {
        ConnectionPool { entries: VecDeque::new() }
    }

    pub fn len(&self) -> (r: usize)
        ensures
            r == self@.len(),
    {
        self.entries.len()
    }

    /// Takes a reusable connection: entries are popped from the front; the first that
    /// is fresh and accepted by `probe` is returned, the others are dropped. `None`
    /// means the pool ran empty and a new connection has to be opened.
    pub fn acquire<F: Fn(&C) -> bool>(&mut self, now_ms: u64, probe: F) -> (r: Option<C>)
        requires
            old(self).wf(),
            forall|c: &C| #[trigger] probe.requires((c,)),
        ensures
            final(self).wf(),
            acquired(old(self)@, final(self)@, r, now_ms, probe),
    {
        let ghost start = self@;
        let ghost mut popped: int = 0;
        loop
            invariant
                0 <= popped <= start.len(),
                start.len() <= MAX_POOL_SIZE,
                start == old(self)@,
                self@ == start.subrange(popped, start.len() as int),
                forall|c: &C| #[trigger] probe.requires((c,)),
                forall|i: int| 0 <= i < popped ==> fails(#[trigger] start[i], now_ms, probe),
            decreases self@.len(),
        {
            match self.entries.pop_front() {
                Some(p) => {
                    proof {
                        assert(p == start[popped]);
                    }
                    let fresh = p.is_fresh(now_ms);
                    if fresh {
                        let alive = probe(&p.conn);
                        if alive {
                            proof {
                                assert(self@ =~= start.subrange(popped + 1, start.len() as int));
                                assert(passes(start[popped], now_ms, probe));
                            }
                            return Some(p.conn);
                        }
                    }
                    proof {
                        assert(fails(start[popped], now_ms, probe));
                        assert(self@ =~= start.subrange(popped + 1, start.len() as int));
                        popped = popped + 1;
                    }
                },
                None => {
                    proof {
                        assert(start.subrange(popped, start.len() as int).len() == 0);
                        assert(popped == start.len());
                    }
                    return None;
                },
            }
        }
    }

    /// Returns a connection to the back of the pool, stamped with `now_ms`, while
    /// there is room; a connection that does not fit is dropped.
    pub fn release(&mut self, conn: C, now_ms: u64)
        requires
            old(self).wf(),
        ensures
            final(self).wf(),
            final(self)@ == released(old(self)@, conn, now_ms),
    {
        if self.entries.len() < MAX_POOL_SIZE {
            self.entries.push_back(PooledConnection { conn, last_used_ms: now_ms });
        }
    }

    /// Drops every entry that is stale or refused by `probe`, keeping the order of
    /// the others; returns how many were dropped.
    pub fn health_sweep<F: Fn(&C) -> bool>(&mut self, now_ms: u64, probe: F) -> (removed: usize)
        requires
            old(self).wf(),
            forall|c: &C| #[trigger] probe.requires((c,)),
        ensures
            final(self).wf(),
            swept(old(self)@, final(self)@, now_ms, probe),
            removed == old(self)@.len() - final(self)@.len(),
    {
        let ghost start = self@;
        let ghost mut keep: Seq<bool> = Seq::empty();
        let mut kept: VecDeque<PooledConnection<C>> = VecDeque::new();
        let n = self.entries.len();
        let mut i: usize = 0;
        while i < n
            invariant
                n == start.len(),
                i <= n,
                keep.len() == i,
                self.entries@ == start.subrange(i as int, n as int),
                kept@ == select(start.subrange(0, i as int), keep),
                kept@.len() <= i,
                forall|c: &C| #[trigger] probe.requires((c,)),
                forall|j: int| 0 <= j < i ==> (if #[trigger] keep[j] {
                    passes(start[j], now_ms, probe)
                } else {
                    fails(start[j], now_ms, probe)
                }),
            decreases n - i,
        {
            let p = self.entries.pop_front().unwrap();
            proof {
                assert(p == start[i as int]);
                assert(start.subrange(0, i + 1).drop_last() =~= start.subrange(0, i as int));
            }
            let mut ok = p.is_fresh(now_ms);
            if ok {
                ok = probe(&p.conn);
            }
            proof {
                assert(keep.push(ok).drop_last() =~= keep);
                keep = keep.push(ok);
            }
            if ok {
                kept.push_back(p);
            }
            i = i + 1;
            proof {
                assert(self.entries@ =~= start.subrange(i as int, n as int));
            }
        }
        proof {
            assert(start.subrange(0, n as int) =~= start);
        }
        let left = kept.len();
        self.entries = kept;
        n - left
    }

    /// Empties the pool; returns how many entries it held.
    pub fn clear(&mut self) -> (count: usize)
        ensures
            final(self)@.len() == 0,
            count == old(self)@.len(),
    {
        let count = self.entries.len();
        self.entries.clear();
        count
    }
}

} // verus!
