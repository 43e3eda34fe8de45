use crate::error::Error;
use vstd::prelude::*;

verus! {

/// The accumulated deposits of one token for one project.
#[derive(Clone, Copy, Debug, PartialEq, Eq, Structural)]
pub struct LedgerEntry {
    pub project_id: u64,
    pub token: u64,
    pub amount: i128,
}

/// A token together with an amount held or released in it.
#[derive(Clone, Copy, Debug, PartialEq, Eq, Structural)]
pub struct TokenBalance {
    pub token: u64,
    pub balance: i128,
}

/// What `e` contributes to the bucket `(p, t)`, or to the whole project `p` when `t` is `None`.
pub open spec fn weight(e: LedgerEntry, p: u64, t: Option<u64>) -> int {
    if e.project_id == p && (t is None || t == Some(e.token)) {
        e.amount as int
    } else {
        0
    }
}

/// The sum of the contributions of `entries` to `(p, t)`.
pub open spec fn sum_in(entries: Seq<LedgerEntry>, p: u64, t: Option<u64>) -> int
    decreases entries.len(),
{
    if entries.len() == 0 {
        0
    } else {
        sum_in(entries.drop_last(), p, t) + weight(entries.last(), p, t)
    }
}

/// The non-zero entries of project `p`, in ledger order.
pub open spec fn drained_in(entries: Seq<LedgerEntry>, p: u64) -> Seq<TokenBalance>
    decreases entries.len(),
{
    if entries.len() == 0 {
        Seq::empty()
    } else {
        let e = entries.last();
        let rest = drained_in(entries.drop_last(), p);
        if e.project_id == p && e.amount != 0 {
            rest.push(TokenBalance { token: e.token, balance: e.amount })
        } else {
            rest
        }
    }
}

/// The sum of the amounts in a sequence of token amounts, be they deposits or payouts.
pub open spec fn amount_sum(items: Seq<TokenBalance>) -> int
    decreases items.len(),
{
    if items.len() == 0 {
        0
    } else {
        amount_sum(items.drop_last()) + items.last().balance
    }
}

/// `e` with its amount reset when it belongs to project `p`.
pub open spec fn zeroed_for(e: LedgerEntry, p: u64) -> LedgerEntry {
    if e.project_id == p {
        LedgerEntry { project_id: e.project_id, token: e.token, amount: 0 }
    } else {
        e
    }
}

pub open spec fn all_nonneg(entries: Seq<LedgerEntry>) -> bool {
    forall|i: int| 0 <= i < entries.len() ==> (#[trigger] entries[i]).amount >= 0
}

pub open spec fn distinct_keys(entries: Seq<LedgerEntry>) -> bool {
    forall|i: int, j: int|
        0 <= i < j < entries.len() ==> !((#[trigger] entries[i]).project_id
            == (#[trigger] entries[j]).project_id && entries[i].token == entries[j].token)
}

proof fn lemma_sum_push(s: Seq<LedgerEntry>, e: LedgerEntry, p: u64, t: Option<u64>)
    ensures
        sum_in(s.push(e), p, t) == sum_in(s, p, t) + weight(e, p, t),
{
    assert(s.push(e).drop_last() =~= s);
}

proof fn lemma_sum_update(s: Seq<LedgerEntry>, i: int, e: LedgerEntry, p: u64, t: Option<u64>)
    requires
        0 <= i < s.len(),
    ensures
        sum_in(s.update(i, e), p, t) == sum_in(s, p, t) - weight(s[i], p, t) + weight(e, p, t),
    decreases s.len(),
{
    if i == s.len() - 1 {
        assert(s.update(i, e).drop_last() =~= s.drop_last());
    } else {
        assert(s.update(i, e).drop_last() =~= s.drop_last().update(i, e));
        lemma_sum_update(s.drop_last(), i, e, p, t);
    }
}

proof fn lemma_sum_nonneg(s: Seq<LedgerEntry>, p: u64, t: Option<u64>)
    requires
        all_nonneg(s),
    ensures
        sum_in(s, p, t) >= 0,
    decreases s.len(),
{
    if s.len() > 0 {
        assert(s.last() == s[s.len() - 1]);
        lemma_sum_nonneg(s.drop_last(), p, t);
    }
}

proof fn lemma_sum_prefix(s: Seq<LedgerEntry>, i: int, p: u64, t: Option<u64>)
    requires
        all_nonneg(s),
        0 <= i <= s.len(),
    ensures
        0 <= sum_in(s.take(i), p, t) <= sum_in(s, p, t),
    decreases s.len() - i,
{
    lemma_sum_nonneg(s.take(i), p, t);
    if i == s.len() {
        assert(s.take(i) =~= s);
    } else {
        assert(s.take(i + 1) =~= s.take(i).push(s[i]));
        lemma_sum_push(s.take(i), s[i], p, t);
        lemma_sum_prefix(s, i + 1, p, t);
    }
}

proof fn lemma_entry_le_sum(s: Seq<LedgerEntry>, i: int, p: u64, t: Option<u64>)
    requires
        all_nonneg(s),
        0 <= i < s.len(),
    ensures
        weight(s[i], p, t) <= sum_in(s, p, t),
{
    let z = LedgerEntry { project_id: s[i].project_id, token: s[i].token, amount: 0 };
    lemma_sum_update(s, i, z, p, t);
    assert(all_nonneg(s.update(i, z)));
    lemma_sum_nonneg(s.update(i, z), p, t);
}

proof fn lemma_total_over_tokens(s: Seq<LedgerEntry>, p: u64, t: u64)
    requires
        all_nonneg(s),
    ensures
        0 <= sum_in(s, p, Some(t)) <= sum_in(s, p, None),
    decreases s.len(),
{
    if s.len() > 0 {
        assert(s.last() == s[s.len() - 1]);
        lemma_total_over_tokens(s.drop_last(), p, t);
    }
}

proof fn lemma_zeroed(s: Seq<LedgerEntry>, z: Seq<LedgerEntry>, p: u64, q: u64, t: Option<u64>)
    requires
        z.len() == s.len(),
        forall|i: int| 0 <= i < s.len() ==> z[i] == zeroed_for(#[trigger] s[i], p),
    ensures
        sum_in(z, q, t) == if q == p {
            0
        } else {
            sum_in(s, q, t)
        },
        drained_in(z, p) == Seq::<TokenBalance>::empty(),
    decreases s.len(),
{
    if s.len() > 0 {
        assert(z.last() == zeroed_for(s[s.len() - 1], p));
        lemma_zeroed(s.drop_last(), z.drop_last(), p, q, t);
    }
}

proof fn lemma_amount_sum(s: Seq<LedgerEntry>, p: u64)
    ensures
        amount_sum(drained_in(s, p)) == sum_in(s, p, None),
    decreases s.len(),
{
    if s.len() > 0 {
        lemma_amount_sum(s.drop_last(), p);
        let e = s.last();
        if e.project_id == p && e.amount != 0 {
            let rest = drained_in(s.drop_last(), p);
            let b = TokenBalance { token: e.token, balance: e.amount };
            assert(rest.push(b).drop_last() =~= rest);
        }
    }
}

/// Whether `entries` holds a bucket for `(p, t)`.
pub open spec fn has_bucket(entries: Seq<LedgerEntry>, p: u64, t: u64) -> bool {
    exists|i: int|
        0 <= i < entries.len() && (#[trigger] entries[i]).project_id == p && entries[i].token == t
}

/// The position of the bucket for `(p, t)`, where there is one.
pub open spec fn bucket_index(entries: Seq<LedgerEntry>, p: u64, t: u64) -> int {
    choose|i: int|
        0 <= i < entries.len() && (#[trigger] entries[i]).project_id == p && entries[i].token == t
}

/// `entries` after `a` was added to the bucket for `(p, t)`: the bucket grows in place,
/// and a bucket that did not exist is appended.
pub open spec fn credited_entries(entries: Seq<LedgerEntry>, p: u64, t: u64, a: i128) -> Seq<
    LedgerEntry,
> {
    if has_bucket(entries, p, t) {
        let i = bucket_index(entries, p, t);
        entries.update(
            i,
            LedgerEntry { project_id: p, token: t, amount: (entries[i].amount + a) as i128 },
        )
    } else {
        entries.push(LedgerEntry { project_id: p, token: t, amount: a })
    }
}

/// `entries` with every bucket of project `p` emptied.
pub open spec fn zeroed_entries(entries: Seq<LedgerEntry>, p: u64) -> Seq<LedgerEntry> {
    Seq::new(entries.len(), |i: int| zeroed_for(entries[i], p))
}

/// The balance ledger: one bucket per (project, token) pair that has ever been credited,
/// in order of creation. Its view is the sequence of buckets.
pub struct BalanceLedger {
    entries: Vec<LedgerEntry>,
}

impl View for BalanceLedger {
    type V = Seq<LedgerEntry>;

    closed spec fn view(&self) -> Seq<LedgerEntry> {
        self.entries@
    }
}

impl BalanceLedger {
    /// No amount is negative, no bucket occurs twice, and each project's total is representable.
    pub open spec fn wf(&self) -> bool {
        &&& all_nonneg(self@)
        &&& distinct_keys(self@)
        &&& forall|p: u64| #[trigger] sum_in(self@, p, None) <= i128::MAX
    }

    /// The amount held for project `p` in token `t`.
    pub open spec fn balance(&self, p: u64, t: u64) -> int {
        sum_in(self@, p, Some(t))
    }

    /// The amount held for project `p` over all tokens.
    pub open spec fn total_of(&self, p: u64) -> int {
        sum_in(self@, p, None)
    }

    /// What a release of project `p` pays out: its non-zero buckets, oldest first.
    pub open spec fn release_plan(&self, p: u64) -> Seq<TokenBalance> {
        drained_in(self@, p)
    }

    /// `post` is `self` with `a` more in bucket `(p, t)` and nothing else changed.
    pub open spec fn credited(&self, post: &BalanceLedger, p: u64, t: u64, a: int) -> bool {
        &&& forall|q: u64, u: u64| #[trigger]
            post.balance(q, u) == self.balance(q, u) + if q == p && u == t {
                a
            } else {
                0
            }
        &&& forall|q: u64| #[trigger]
            post.total_of(q) == self.total_of(q) + if q == p {
                a
            } else {
                0
            }
    }

    /// `post` is `self` with every bucket of project `p` emptied and nothing else changed.
    pub open spec fn drained(&self, post: &BalanceLedger, p: u64) -> bool {
        &&& forall|q: u64, u: u64| #[trigger]
            post.balance(q, u) == if q == p {
                0
            } else {
                self.balance(q, u)
            }
        &&& forall|q: u64| #[trigger]
            post.total_of(q) == if q == p {
                0
            } else {
                self.total_of(q)
            }
        &&& post.release_plan(p) == Seq::<TokenBalance>::empty()
    }

    /// Balances are never negative, a bucket never exceeds its project's total, and the
    /// release plan pays out exactly the total.
    pub proof fn lemma_bounds(&self, p: u64, t: u64)
        requires
            self.wf(),
        ensures
            0 <= self.balance(p, t) <= self.total_of(p) <= i128::MAX,
            amount_sum(self.release_plan(p)) == self.total_of(p),
    {
        lemma_total_over_tokens(self.entries@, p, t);
        lemma_amount_sum(self.entries@, p);
    }

    /// An empty ledger.
    pub fn new() -> (r: BalanceLedger)
        ensures
            r.wf(),
            r@ == Seq::<LedgerEntry>::empty(),
            forall|p: u64, t: u64| #[trigger] r.balance(p, t) == 0,
            forall|p: u64| #[trigger] r.total_of(p) == 0,
    {
        BalanceLedger { entries: Vec::new() }
    }

    fn find(&self, p: u64, t: u64) -> (r: Option<usize>)
        ensures
            match r {
                Some(i) => i < self.entries.len() && self.entries[i as int].project_id == p
                    && self.entries[i as int].token == t,
                None => forall|j: int|
                    0 <= j < self.entries.len() ==> !((#[trigger] self.entries[j]).project_id == p
                        && self.entries[j].token == t),
            },
    {
        let mut i: usize = 0;
        while i < self.entries.len()
            invariant
                i <= self.entries.len(),
                forall|j: int|
                    0 <= j < i ==> !((#[trigger] self.entries[j]).project_id == p
                        && self.entries[j].token == t),
            decreases self.entries.len() - i,
        {
            let e = self.entries[i];
            if e.project_id == p && e.token == t {
                return Some(i);
            }
            i = i + 1;
        }
        None
    }

    fn sum_exec(&self, p: u64, t: Option<u64>) -> (r: i128)
        requires
            self.wf(),
        ensures
            r == sum_in(self.entries@, p, t),
    {
        let mut acc: i128 = 0;
        let mut i: usize = 0;
        while i < self.entries.len()
            invariant
                self.wf(),
                i <= self.entries.len(),
                acc == sum_in(self.entries@.take(i as int), p, t),
            decreases self.entries.len() - i,
        {
            let e = self.entries[i];
            proof {
                let s = self.entries@;
                assert(s.take(i + 1) =~= s.take(i as int).push(s[i as int]));
                lemma_sum_push(s.take(i as int), s[i as int], p, t);
                lemma_sum_prefix(s, i + 1, p, t);
                lemma_sum_prefix(s, i + 1, p, None);
                match t {
                    Some(u) => {
                        lemma_total_over_tokens(s.take(i + 1), p, u);
                    },
                    None => {},
                }
            }
            let hit = e.project_id == p && match t {
                Some(u) => e.token == u,
                None => true,
            };
            if hit {
                acc = acc + e.amount;
            }
            i = i + 1;
        }
        proof {
            assert(self.entries@.take(i as int) =~= self.entries@);
        }
        acc
    }

    /// The amount held for `project_id` over all of its tokens.
    pub fn total(&self, project_id: u64) -> (r: i128)
        requires
            self.wf(),
        ensures
            r == self.total_of(project_id),
            r >= 0,
    {
        proof {
            lemma_sum_nonneg(self.entries@, project_id, None);
        }
        self.sum_exec(project_id, None)
    }

    /// The amount held for `project_id` in `token`; zero where nothing was ever credited.
    pub fn snapshot(&self, project_id: u64, token: u64) -> (r: i128)
        requires
            self.wf(),
        ensures
            r == self.balance(project_id, token),
            r >= 0,
    {
        proof {
            lemma_sum_nonneg(self.entries@, project_id, Some(token));
        }
        self.sum_exec(project_id, Some(token))
    }

    /// Adds `amount` to the bucket `(project_id, token)`, creating it when absent.
    ///
    /// Rejects a non-positive amount with `InvalidAmount`, and one that would carry the
    /// project's total past `i128::MAX` with `Overflow`. A rejection changes nothing.
    pub fn credit(&mut self, project_id: u64, token: u64, amount: i128) -> (r: Result<(), Error>)
        requires
            old(self).wf(),
        ensures
            final(self).wf(),
            r == Self::credit_outcome(old(self).total_of(project_id), amount),
            r is Ok ==> final(self)@ == credited_entries(old(self)@, project_id, token, amount),
            r is Ok ==> old(self).credited(final(self), project_id, token, amount as int),
            r is Err ==> *final(self) == *old(self),
    {
        if amount <= 0 {
            return Err(Error::InvalidAmount);
        }
        let total = self.total(project_id);
        if total > i128::MAX - amount {
            return Err(Error::Overflow);
        }
        let ghost pre = self.entries@;
        let slot = self.find(project_id, token);
        let ghost changed: LedgerEntry;
        match slot {
            Some(i) => {
                let e = self.entries[i];
                proof {
                    lemma_entry_le_sum(pre, i as int, project_id, None);
                }
                let updated = LedgerEntry { project_id, token, amount: e.amount + amount };
                self.entries.set(i, updated);
                proof {
                    changed = updated;
                    assert(pre[i as int].project_id == project_id && pre[i as int].token == token);
                    assert(has_bucket(pre, project_id, token));
                    assert(bucket_index(pre, project_id, token) == i);
                }
            },
            None => {
                let fresh = LedgerEntry { project_id, token, amount };
                self.entries.push(fresh);
                proof {
                    changed = fresh;
                    assert(!has_bucket(pre, project_id, token));
                }
            },
        }
        proof {
            let post = self.entries@;
            assert forall|q: u64, u: Option<u64>|
                #[trigger] sum_in(post, q, u) == sum_in(pre, q, u) + if q == project_id && (u is None
                    || u == Some(token)) {
                    amount as int
                } else {
                    0
                } by {
                match slot {
                    Some(i) => {
                        lemma_sum_update(pre, i as int, changed, q, u);
                    },
                    None => {
                        lemma_sum_push(pre, changed, q, u);
                    },
                }
            }
            assert forall|q: u64, u: u64| #[trigger]
                self.balance(q, u) == old(self).balance(q, u) + if q == project_id && u == token {
                    amount as int
                } else {
                    0
                } by {
                assert(self.balance(q, u) == sum_in(post, q, Some(u)));
            }
            assert forall|q: u64| #[trigger]
                self.total_of(q) == old(self).total_of(q) + if q == project_id {
                    amount as int
                } else {
                    0
                } by {
                assert(self.total_of(q) == sum_in(post, q, None));
            }
            assert forall|q: u64| #[trigger] sum_in(post, q, None) <= i128::MAX by {
                assert(old(self).total_of(q) == sum_in(pre, q, None));
            }
        }
        Ok(())
    }

    /// What `credit` answers for a project holding `total` and a deposit of `amount`.
    pub open spec fn credit_outcome(total: int, amount: i128) -> Result<(), Error> {
        if amount <= 0 {
            Err(Error::InvalidAmount)
        } else if total + amount > i128::MAX {
            Err(Error::Overflow)
        } else {
            Ok(())
        }
    }

    /// What `drain_all` would return for `project_id`, leaving the ledger as it is.
    pub fn pending(&self, project_id: u64) -> (r: Vec<TokenBalance>)
        ensures
            r@ == self.release_plan(project_id),
    {
        let mut out: Vec<TokenBalance> = Vec::new();
        let mut i: usize = 0;
        while i < self.entries.len()
            invariant
                i <= self.entries.len(),
                out@ == drained_in(self.entries@.take(i as int), project_id),
            decreases self.entries.len() - i,
        {
            let e = self.entries[i];
            proof {
                assert(self.entries@.take(i + 1).drop_last() =~= self.entries@.take(i as int));
            }
            if e.project_id == project_id && e.amount != 0 {
                out.push(TokenBalance { token: e.token, balance: e.amount });
            }
            i = i + 1;
        }
        proof {
            assert(self.entries@.take(i as int) =~= self.entries@);
        }
        out
    }

    /// Empties every bucket of `project_id` and returns the non-zero ones, oldest first.
    /// A second call returns nothing.
    pub fn drain_all(&mut self, project_id: u64) -> (r: Vec<TokenBalance>)
        requires
            old(self).wf(),
        ensures
            final(self).wf(),
            r@ == old(self).release_plan(project_id),
            final(self)@ == zeroed_entries(old(self)@, project_id),
            old(self).drained(final(self), project_id),
    {
        let mut out: Vec<TokenBalance> = Vec::new();
        let n = self.entries.len();
        let ghost pre = self.entries@;
        let mut i: usize = 0;
        while i < n
            invariant
                n == self.entries.len(),
                n == pre.len(),
                i <= n,
                forall|j: int| 0 <= j < i ==> self.entries[j] == zeroed_for(#[trigger] pre[j], project_id),
                forall|j: int| i <= j < n ==> self.entries[j] == #[trigger] pre[j],
                out@ == drained_in(pre.take(i as int), project_id),
            decreases n - i,
        {
            let e = self.entries[i];
            proof {
                assert(pre.take(i + 1).drop_last() =~= pre.take(i as int));
            }
            if e.project_id == project_id {
                if e.amount != 0 {
                    out.push(TokenBalance { token: e.token, balance: e.amount });
                }
                self.entries.set(i, LedgerEntry { project_id: e.project_id, token: e.token, amount: 0 });
            }
            i = i + 1;
        }
        proof {
            assert(pre.take(i as int) =~= pre);
            let post = self.entries@;
            assert(post =~= zeroed_entries(pre, project_id));
            assert forall|q: u64, u: Option<u64>|
                #[trigger] sum_in(post, q, u) == if q == project_id {
                    0
                } else {
                    sum_in(pre, q, u)
                } by {
                lemma_zeroed(pre, post, project_id, q, u);
            }
            lemma_zeroed(pre, post, project_id, project_id, None);
            assert forall|q: u64, u: u64| #[trigger]
                self.balance(q, u) == if q == project_id {
                    0
                } else {
                    old(self).balance(q, u)
                } by {
                let _ = sum_in(post, q, Some(u));
            }
            assert forall|q: u64| #[trigger]
                self.total_of(q) == if q == project_id {
                    0
                } else {
                    old(self).total_of(q)
                } by {
                let _ = sum_in(post, q, None);
            }
            assert forall|q: u64| #[trigger] sum_in(post, q, None) <= i128::MAX by {
                let _ = sum_in(pre, q, None);
            }
            assert(all_nonneg(post)) by {
                assert forall|j: int| 0 <= j < post.len() implies (#[trigger] post[j]).amount >= 0 by {
                    assert(post[j] == zeroed_for(pre[j], project_id));
                }
            }
            assert(distinct_keys(post)) by {
                assert forall|a: int, b: int| 0 <= a < b < post.len() implies !((
                #[trigger] post[a]).project_id == (#[trigger] post[b]).project_id && post[a].token
                    == post[b].token) by {
                    assert(post[a] == zeroed_for(pre[a], project_id));
                    assert(post[b] == zeroed_for(pre[b], project_id));
                }
            }
        }
        out
    }
}

proof fn lemma_amount_sum_remove(s: Seq<TokenBalance>, k: int)
    requires
        0 <= k < s.len(),
    ensures
        amount_sum(s) == amount_sum(s.remove(k)) + s[k].balance,
    decreases s.len(),
{
    if k == s.len() - 1 {
        assert(s.remove(k) =~= s.drop_last());
    } else {
        assert(s.remove(k).drop_last() =~= s.drop_last().remove(k));
        assert(s.remove(k).last() == s.last());
        lemma_amount_sum_remove(s.drop_last(), k);
    }
}

/// Two sequences that hold the same token amounts, in whatever order, have the same sum.
pub proof fn lemma_amount_sum_any_order(a: Seq<TokenBalance>, b: Seq<TokenBalance>)
    requires
        a.to_multiset() == b.to_multiset(),
    ensures
        amount_sum(a) == amount_sum(b),
    decreases a.len(),
{
    vstd::seq_lib::to_multiset_len(a);
    vstd::seq_lib::to_multiset_len(b);
    if a.len() > 0 {
        let x = a.last();
        let last = a.len() - 1;
        assert(a[last] == x);
        vstd::seq_lib::to_multiset_contains(a, x);
        vstd::seq_lib::to_multiset_contains(b, x);
        let k = choose|k: int| 0 <= k < b.len() && b[k] == x;
        vstd::seq_lib::to_multiset_remove(a, last);
        vstd::seq_lib::to_multiset_remove(b, k);
        assert(a.remove(last) =~= a.drop_last());
        lemma_amount_sum_any_order(a.drop_last(), b.remove(k));
        lemma_amount_sum_remove(b, k);
    }
}

/// `states` is a run of the ledger in which each step credits project `p` with the
/// deposit of the same position.
pub open spec fn credit_run(states: Seq<BalanceLedger>, p: u64, deposits: Seq<TokenBalance>) -> bool {
    &&& states.len() == deposits.len() + 1
    &&& forall|i: int|
        0 <= i < deposits.len() ==> states[i].credited(
            &states[i + 1],
            p,
            (#[trigger] deposits[i]).token,
            deposits[i].balance as int,
        )
}

/// After any run of deposits a project's total has grown by the sum of the amounts,
/// however they are spread over tokens.
pub proof fn lemma_total_after_credits(states: Seq<BalanceLedger>, p: u64, deposits: Seq<TokenBalance>)
    requires
        credit_run(states, p, deposits),
    ensures
        states.last().total_of(p) == states[0].total_of(p) + amount_sum(deposits),
    decreases deposits.len(),
{
    if deposits.len() > 0 {
        let n = deposits.len() - 1;
        let d = deposits[n];
        let before = states.drop_last();
        let rest = deposits.drop_last();
        assert forall|i: int| 0 <= i < rest.len() implies before[i].credited(
            &before[i + 1],
            p,
            (#[trigger] rest[i]).token,
            rest[i].balance as int,
        ) by {
            assert(deposits[i] == rest[i]);
        }
        lemma_total_after_credits(before, p, rest);
        assert(states[n].credited(&states[n + 1], p, d.token, d.balance as int));
        assert(states[n + 1].total_of(p) == states[n].total_of(p) + d.balance);
    }
}

/// Two runs that start from the same total and make the same deposits in different
/// orders end with the same total.
pub proof fn lemma_total_any_order(
    first: Seq<BalanceLedger>,
    second: Seq<BalanceLedger>,
    p: u64,
    deposits: Seq<TokenBalance>,
    reordered: Seq<TokenBalance>,
)
    requires
        credit_run(first, p, deposits),
        credit_run(second, p, reordered),
        first[0].total_of(p) == second[0].total_of(p),
        deposits.to_multiset() == reordered.to_multiset(),
    ensures
        first.last().total_of(p) == second.last().total_of(p),
{
    lemma_total_after_credits(first, p, deposits);
    lemma_total_after_credits(second, p, reordered);
    lemma_amount_sum_any_order(deposits, reordered);
}

} // verus!
