//! Keyed stores backing both ledgers.
//!
//! The persistence collaborator of the host is a keyed store with an
//! "absent entry reads as zero" convention.  Each entity kind gets a
//! typed store here: `IntMap` (account to amount, with a running-sum
//! spec used for the supply invariant), `PairMap` (owner/spender pair
//! to amount, for allowances) and `TimeMap` (account to timestamp or
//! sequence number).  A zero value is a legitimate stored entry, not
//! absence: writes never remove an entry, so "absent means zero" stays
//! a read-time convenience only.

use vstd::prelude::*;

verus! {

/// First value stored under `k`, front to back; an absent key reads as 0.
pub open spec fn int_lookup(s: Seq<(u64, i128)>, k: u64) -> int
    decreases s.len(),
{
    if s.len() == 0 {
        0
    } else if s[0].0 == k {
        s[0].1 as int
    } else {
        int_lookup(s.subrange(1, s.len() as int), k)
    }
}

/// Sum of all stored values.
pub open spec fn int_sum(s: Seq<(u64, i128)>) -> int
    decreases s.len(),
{
    if s.len() == 0 {
        0
    } else {
        s[0].1 + int_sum(s.subrange(1, s.len() as int))
    }
}

/// Every stored value is non-negative.
pub open spec fn int_entries_nonneg(s: Seq<(u64, i128)>) -> bool {
    forall|i: int| 0 <= i < s.len() ==> s[i].1 >= 0
}

/// No key occurs twice.
pub open spec fn int_keys_unique(s: Seq<(u64, i128)>) -> bool {
    forall|i: int, j: int| 0 <= i < j < s.len() ==> s[i].0 != s[j].0
}

proof fn lemma_int_lookup_at_index(s: Seq<(u64, i128)>, i: int)
    requires
        int_keys_unique(s),
        0 <= i < s.len(),
    ensures
        int_lookup(s, s[i].0) == s[i].1,
    decreases s.len(),
{
    if i == 0 {
    } else {
        let rest = s.subrange(1, s.len() as int);
        assert(s[0].0 != s[i].0);
        assert(int_keys_unique(rest)) by {
            assert(forall|p: int, q: int|
                0 <= p < q < rest.len() ==> rest[p] == s[p + 1] && rest[q] == s[q + 1]);
        }
        assert(rest[i - 1] == s[i]);
        lemma_int_lookup_at_index(rest, i - 1);
    }
}

proof fn lemma_int_lookup_absent(s: Seq<(u64, i128)>, k: u64)
    requires
        forall|i: int| 0 <= i < s.len() ==> s[i].0 != k,
    ensures
        int_lookup(s, k) == 0,
    decreases s.len(),
{
    if s.len() > 0 {
        let rest = s.subrange(1, s.len() as int);
        assert(forall|i: int| 0 <= i < rest.len() ==> rest[i] == s[i + 1]);
        lemma_int_lookup_absent(rest, k);
    }
}

proof fn lemma_int_update(s: Seq<(u64, i128)>, i: int, v: i128)
    requires
        int_keys_unique(s),
        0 <= i < s.len(),
    ensures
        int_lookup(s.update(i, (s[i].0, v)), s[i].0) == v,
        forall|k2: u64| k2 != s[i].0 ==>
            int_lookup(s.update(i, (s[i].0, v)), k2) == int_lookup(s, k2),
        int_sum(s.update(i, (s[i].0, v))) == int_sum(s) - s[i].1 + v,
        int_keys_unique(s.update(i, (s[i].0, v))),
        int_entries_nonneg(s) && v >= 0 ==> int_entries_nonneg(s.update(i, (s[i].0, v))),
    decreases s.len(),
{
    let t = s.update(i, (s[i].0, v));
    let trest = t.subrange(1, t.len() as int);
    assert(forall|j: int| 0 <= j < s.len() && j != i ==> t[j] == s[j]);
    if i == 0 {
        assert(trest =~= s.subrange(1, s.len() as int));
        assert forall|k2: u64| k2 != s[i].0 implies int_lookup(t, k2) == int_lookup(s, k2) by {
            assert(int_lookup(t, k2) == int_lookup(trest, k2));
            assert(int_lookup(s, k2) == int_lookup(s.subrange(1, s.len() as int), k2));
        }
    } else {
        let rest = s.subrange(1, s.len() as int);
        assert(int_keys_unique(rest)) by {
            assert(forall|p: int, q: int|
                0 <= p < q < rest.len() ==> rest[p] == s[p + 1] && rest[q] == s[q + 1]);
        }
        assert(rest[i - 1] == s[i]);
        assert(trest =~= rest.update(i - 1, (s[i].0, v)));
        lemma_int_update(rest, i - 1, v);
        assert(s[0].0 != s[i].0);
        assert(t[0] == s[0]);
        assert forall|k2: u64| k2 != s[i].0 implies int_lookup(t, k2) == int_lookup(s, k2) by {
            if s[0].0 == k2 {
                assert(int_lookup(t, k2) == t[0].1);
                assert(int_lookup(s, k2) == s[0].1);
            } else {
                assert(int_lookup(t, k2) == int_lookup(trest, k2));
                assert(int_lookup(s, k2) == int_lookup(rest, k2));
            }
        }
    }
}

proof fn lemma_int_push(s: Seq<(u64, i128)>, k: u64, v: i128)
    requires
        forall|i: int| 0 <= i < s.len() ==> s[i].0 != k,
    ensures
        int_lookup(s.push((k, v)), k) == v,
        forall|k2: u64| k2 != k ==> int_lookup(s.push((k, v)), k2) == int_lookup(s, k2),
        int_sum(s.push((k, v))) == int_sum(s) + v,
        int_keys_unique(s) ==> int_keys_unique(s.push((k, v))),
        int_entries_nonneg(s) && v >= 0 ==> int_entries_nonneg(s.push((k, v))),
    decreases s.len(),
{
    let t = s.push((k, v));
    let trest = t.subrange(1, t.len() as int);
    assert(forall|j: int| 0 <= j < s.len() ==> t[j] == s[j]);
    assert(t[s.len() as int] == (k, v));
    if s.len() == 0 {
        let e = Seq::<(u64, i128)>::empty();
        assert(trest =~= e);
        assert(int_sum(e) == 0);
        assert(int_lookup(t, k) == v);
        assert forall|k2: u64| k2 != k implies int_lookup(t, k2) == int_lookup(s, k2) by {
            assert(int_lookup(e, k2) == 0);
            assert(int_lookup(t, k2) == int_lookup(trest, k2));
            assert(int_lookup(s, k2) == 0);
        }
    } else {
        let rest = s.subrange(1, s.len() as int);
        assert(forall|i: int| 0 <= i < rest.len() ==> rest[i] == s[i + 1]);
        assert(trest =~= rest.push((k, v)));
        lemma_int_push(rest, k, v);
        assert(t[0] == s[0]);
        assert(s[0].0 != k);
        assert(int_lookup(t, k) == int_lookup(trest, k));
        assert(int_sum(t) == t[0].1 + int_sum(trest));
        assert(int_sum(s) == s[0].1 + int_sum(rest));
        assert forall|k2: u64| k2 != k implies int_lookup(t, k2) == int_lookup(s, k2) by {
            if s[0].0 == k2 {
                assert(int_lookup(t, k2) == t[0].1);
                assert(int_lookup(s, k2) == s[0].1);
            } else {
                assert(int_lookup(t, k2) == int_lookup(trest, k2));
                assert(int_lookup(s, k2) == int_lookup(rest, k2));
            }
        }
    }
}

proof fn lemma_int_sum_nonneg(s: Seq<(u64, i128)>)
    requires
        int_entries_nonneg(s),
    ensures
        int_sum(s) >= 0,
    decreases s.len(),
{
    if s.len() > 0 {
        let rest = s.subrange(1, s.len() as int);
        assert(forall|i: int| 0 <= i < rest.len() ==> rest[i] == s[i + 1]);
        lemma_int_sum_nonneg(rest);
    }
}

proof fn lemma_int_lookup_le_sum(s: Seq<(u64, i128)>, k: u64)
    requires
        int_entries_nonneg(s),
    ensures
        0 <= int_lookup(s, k),
        int_lookup(s, k) <= int_sum(s),
    decreases s.len(),
{
    if s.len() > 0 {
        let rest = s.subrange(1, s.len() as int);
        assert(forall|i: int| 0 <= i < rest.len() ==> rest[i] == s[i + 1]);
        lemma_int_lookup_le_sum(rest, k);
        if s[0].0 == k {
            lemma_int_sum_nonneg(rest);
        }
    }
}

proof fn lemma_int_two_le_sum(s: Seq<(u64, i128)>, k1: u64, k2: u64)
    requires
        int_entries_nonneg(s),
        k1 != k2,
    ensures
        int_lookup(s, k1) + int_lookup(s, k2) <= int_sum(s),
    decreases s.len(),
{
    if s.len() == 0 {
    } else {
        let rest = s.subrange(1, s.len() as int);
        assert(forall|i: int| 0 <= i < rest.len() ==> rest[i] == s[i + 1]);
        if s[0].0 == k1 {
            lemma_int_lookup_le_sum(rest, k2);
        } else if s[0].0 == k2 {
            lemma_int_lookup_le_sum(rest, k1);
        } else {
            lemma_int_two_le_sum(rest, k1, k2);
        }
    }
}

/// First timestamp stored under `k`; an absent key reads as 0 (epoch).
pub open spec fn time_lookup(s: Seq<(u64, u64)>, k: u64) -> u64
    decreases s.len(),
{
    if s.len() == 0 {
        0u64
    } else if s[0].0 == k {
        s[0].1
    } else {
        time_lookup(s.subrange(1, s.len() as int), k)
    }
}

/// No key occurs twice.
pub open spec fn time_keys_unique(s: Seq<(u64, u64)>) -> bool {
    forall|i: int, j: int| 0 <= i < j < s.len() ==> s[i].0 != s[j].0
}

proof fn lemma_time_lookup_at_index(s: Seq<(u64, u64)>, i: int)
    requires
        time_keys_unique(s),
        0 <= i < s.len(),
    ensures
        time_lookup(s, s[i].0) == s[i].1,
    decreases s.len(),
{
    if i == 0 {
    } else {
        let rest = s.subrange(1, s.len() as int);
        assert(s[0].0 != s[i].0);
        assert(time_keys_unique(rest)) by {
            assert(forall|p: int, q: int|
                0 <= p < q < rest.len() ==> rest[p] == s[p + 1] && rest[q] == s[q + 1]);
        }
        assert(rest[i - 1] == s[i]);
        lemma_time_lookup_at_index(rest, i - 1);
    }
}

proof fn lemma_time_lookup_absent(s: Seq<(u64, u64)>, k: u64)
    requires
        forall|i: int| 0 <= i < s.len() ==> s[i].0 != k,
    ensures
        time_lookup(s, k) == 0,
    decreases s.len(),
{
    if s.len() > 0 {
        let rest = s.subrange(1, s.len() as int);
        assert(forall|i: int| 0 <= i < rest.len() ==> rest[i] == s[i + 1]);
        lemma_time_lookup_absent(rest, k);
    }
}

proof fn lemma_time_update(s: Seq<(u64, u64)>, i: int, v: u64)
    requires
        time_keys_unique(s),
        0 <= i < s.len(),
    ensures
        time_lookup(s.update(i, (s[i].0, v)), s[i].0) == v,
        forall|k2: u64| k2 != s[i].0 ==>
            time_lookup(s.update(i, (s[i].0, v)), k2) == time_lookup(s, k2),
        time_keys_unique(s.update(i, (s[i].0, v))),
    decreases s.len(),
{
    let t = s.update(i, (s[i].0, v));
    let trest = t.subrange(1, t.len() as int);
    assert(forall|j: int| 0 <= j < s.len() && j != i ==> t[j] == s[j]);
    if i == 0 {
        assert(trest =~= s.subrange(1, s.len() as int));
        assert forall|k2: u64| k2 != s[i].0 implies time_lookup(t, k2) == time_lookup(s, k2) by {
            assert(time_lookup(t, k2) == time_lookup(trest, k2));
            assert(time_lookup(s, k2) == time_lookup(s.subrange(1, s.len() as int), k2));
        }
    } else {
        let rest = s.subrange(1, s.len() as int);
        assert(time_keys_unique(rest)) by {
            assert(forall|p: int, q: int|
                0 <= p < q < rest.len() ==> rest[p] == s[p + 1] && rest[q] == s[q + 1]);
        }
        assert(rest[i - 1] == s[i]);
        assert(trest =~= rest.update(i - 1, (s[i].0, v)));
        lemma_time_update(rest, i - 1, v);
        assert(s[0].0 != s[i].0);
        assert(t[0] == s[0]);
        assert forall|k2: u64| k2 != s[i].0 implies time_lookup(t, k2) == time_lookup(s, k2) by {
            if s[0].0 == k2 {
                assert(time_lookup(t, k2) == t[0].1);
                assert(time_lookup(s, k2) == s[0].1);
            } else {
                assert(time_lookup(t, k2) == time_lookup(trest, k2));
                assert(time_lookup(s, k2) == time_lookup(rest, k2));
            }
        }
    }
}

proof fn lemma_time_push(s: Seq<(u64, u64)>, k: u64, v: u64)
    requires
        forall|i: int| 0 <= i < s.len() ==> s[i].0 != k,
    ensures
        time_lookup(s.push((k, v)), k) == v,
        forall|k2: u64| k2 != k ==> time_lookup(s.push((k, v)), k2) == time_lookup(s, k2),
        time_keys_unique(s) ==> time_keys_unique(s.push((k, v))),
    decreases s.len(),
{
    let t = s.push((k, v));
    let trest = t.subrange(1, t.len() as int);
    assert(forall|j: int| 0 <= j < s.len() ==> t[j] == s[j]);
    assert(t[s.len() as int] == (k, v));
    if s.len() == 0 {
        let e = Seq::<(u64, u64)>::empty();
        assert(trest =~= e);
        assert(time_lookup(t, k) == v);
        assert forall|k2: u64| k2 != k implies time_lookup(t, k2) == time_lookup(s, k2) by {
            assert(time_lookup(e, k2) == 0);
            assert(time_lookup(t, k2) == time_lookup(trest, k2));
            assert(time_lookup(s, k2) == 0);
        }
    } else {
        let rest = s.subrange(1, s.len() as int);
        assert(forall|i: int| 0 <= i < rest.len() ==> rest[i] == s[i + 1]);
        assert(trest =~= rest.push((k, v)));
        lemma_time_push(rest, k, v);
        assert(t[0] == s[0]);
        assert(s[0].0 != k);
        assert(time_lookup(t, k) == time_lookup(trest, k));
        assert forall|k2: u64| k2 != k implies time_lookup(t, k2) == time_lookup(s, k2) by {
            if s[0].0 == k2 {
                assert(time_lookup(t, k2) == t[0].1);
                assert(time_lookup(s, k2) == s[0].1);
            } else {
                assert(time_lookup(t, k2) == time_lookup(trest, k2));
                assert(time_lookup(s, k2) == time_lookup(rest, k2));
            }
        }
    }
}

/// Store from account identifier to a non-negative amount; an absent
/// account reads as 0.
pub struct IntMap {
    entries: Vec<(u64, i128)>,
}

impl View for IntMap {
    type V = Map<u64, int>;

    closed spec fn view(&self) -> Map<u64, int> {
        Map::total(|k: u64| int_lookup(self.entries@, k))
    }
}

impl IntMap {
    /// Keys are unique and every stored amount is non-negative.
    pub closed spec fn wf(&self) -> bool {
        int_keys_unique(self.entries@) && int_entries_nonneg(self.entries@)
    }

    /// Sum of every stored amount.
    pub closed spec fn sum(&self) -> int {
        int_sum(self.entries@)
    }

    /// Every amount a well-formed store holds is non-negative and no
    /// larger than the sum of all amounts.
    pub proof fn lemma_le_sum(&self, k: u64)
        requires
            self.wf(),
        ensures
            0 <= self@[k],
            self@[k] <= self.sum(),
    {
        lemma_int_lookup_le_sum(self.entries@, k);
    }

    /// Two distinct accounts never hold more, together, than the sum.
    pub proof fn lemma_two_le_sum(&self, k1: u64, k2: u64)
        requires
            self.wf(),
            k1 != k2,
        ensures
            self@[k1] + self@[k2] <= self.sum(),
    {
        lemma_int_two_le_sum(self.entries@, k1, k2);
    }

    /// The empty store: every account reads 0.
    pub fn new() -> (r: IntMap)
        ensures
            r.wf(),
            r@ == Map::total(|k: u64| 0int),
            r.sum() == 0,
    {
        let r = IntMap { entries: Vec::new() };
        proof {
            assert(r@ =~= Map::total(|k: u64| 0int));
        }
        r
    }

    fn index_of(&self, k: u64) -> (r: Option<usize>)
        ensures
            match r {
                Some(i) => i < self.entries@.len() && self.entries@[i as int].0 == k,
                None => forall|j: int| 0 <= j < self.entries@.len() ==> self.entries@[j].0 != k,
            },
    {
        let n = self.entries.len();
        let mut i: usize = 0;
        while i < n
            invariant
                i <= n,
                n == self.entries@.len(),
                forall|j: int| 0 <= j < i ==> self.entries@[j].0 != k,
            decreases n - i,
        {
            if self.entries[i].0 == k {
                return Some(i);
            }
            i = i + 1;
        }
        None
    }

    /// Reads the amount stored under `k`, defaulting to 0.
    pub fn get(&self, k: u64) -> (r: i128)
        requires
            self.wf(),
        ensures
            r as int == self@[k],
            r >= 0,
    {
        match self.index_of(k) {
            Some(i) => {
                proof {
                    lemma_int_lookup_at_index(self.entries@, i as int);
                    lemma_int_lookup_le_sum(self.entries@, k);
                }
                self.entries[i].1
            }
            None => {
                proof {
                    lemma_int_lookup_absent(self.entries@, k);
                }
                0
            }
        }
    }

    /// Stores `v` under `k`, materializing the entry on first write.
    pub fn set(&mut self, k: u64, v: i128)
        requires
            old(self).wf(),
            v >= 0,
        ensures
            final(self).wf(),
            final(self)@ == old(self)@.insert(k, v as int),
            final(self).sum() == old(self).sum() - old(self)@[k] + v,
    {
        let ghost s0 = self.entries@;
        match self.index_of(k) {
            Some(i) => {
                self.entries.set(i, (k, v));
                proof {
                    assert(s0[i as int].0 == k);
                    lemma_int_lookup_at_index(s0, i as int);
                    lemma_int_update(s0, i as int, v);
                    assert(self.entries@ =~= s0.update(i as int, (k, v)));
                    assert(self@ =~= old(self)@.insert(k, v as int));
                }
            }
            None => {
                self.entries.push((k, v));
                proof {
                    lemma_int_lookup_absent(s0, k);
                    lemma_int_push(s0, k, v);
                    assert(self@ =~= old(self)@.insert(k, v as int));
                }
            }
        }
    }
}

/// Store from account identifier to a timestamp or sequence number;
/// an absent account reads as 0 (the epoch).
pub struct TimeMap {
    entries: Vec<(u64, u64)>,
}

impl View for TimeMap {
    type V = Map<u64, u64>;

    closed spec fn view(&self) -> Map<u64, u64> {
        Map::total(|k: u64| time_lookup(self.entries@, k))
    }
}

impl TimeMap {
    /// Keys are unique.
    pub closed spec fn wf(&self) -> bool {
        time_keys_unique(self.entries@)
    }

    /// The empty store: every account reads 0.
    pub fn new() -> (r: TimeMap)
        ensures
            r.wf(),
            r@ == Map::total(|k: u64| 0u64),
    {
        let r = TimeMap { entries: Vec::new() };
        proof {
            assert(r@ =~= Map::total(|k: u64| 0u64));
        }
        r
    }

    fn index_of(&self, k: u64) -> (r: Option<usize>)
        ensures
            match r {
                Some(i) => i < self.entries@.len() && self.entries@[i as int].0 == k,
                None => forall|j: int| 0 <= j < self.entries@.len() ==> self.entries@[j].0 != k,
            },
    {
        let n = self.entries.len();
        let mut i: usize = 0;
        while i < n
            invariant
                i <= n,
                n == self.entries@.len(),
                forall|j: int| 0 <= j < i ==> self.entries@[j].0 != k,
            decreases n - i,
        {
            if self.entries[i].0 == k {
                return Some(i);
            }
            i = i + 1;
        }
        None
    }

    /// Reads the timestamp stored under `k`, defaulting to 0.
    pub fn get(&self, k: u64) -> (r: u64)
        requires
            self.wf(),
        ensures
            r == self@[k],
    {
        match self.index_of(k) {
            Some(i) => {
                proof {
                    lemma_time_lookup_at_index(self.entries@, i as int);
                }
                self.entries[i].1
            }
            None => {
                proof {
                    lemma_time_lookup_absent(self.entries@, k);
                }
                0
            }
        }
    }

    /// Stores `v` under `k`, materializing the entry on first write.
    pub fn set(&mut self, k: u64, v: u64)
        requires
            old(self).wf(),
        ensures
            final(self).wf(),
            final(self)@ == old(self)@.insert(k, v),
    {
        let ghost s0 = self.entries@;
        match self.index_of(k) {
            Some(i) => {
                self.entries.set(i, (k, v));
                proof {
                    assert(s0[i as int].0 == k);
                    lemma_time_update(s0, i as int, v);
                    assert(self.entries@ =~= s0.update(i as int, (k, v)));
                    assert(self@ =~= old(self)@.insert(k, v));
                }
            }
            None => {
                self.entries.push((k, v));
                proof {
                    lemma_time_push(s0, k, v);
                    assert(self@ =~= old(self)@.insert(k, v));
                }
            }
        }
    }
}

/// First value stored under the pair `(a, b)`; an absent pair reads as 0.
pub open spec fn pair_lookup(s: Seq<(u64, u64, i128)>, a: u64, b: u64) -> int
    decreases s.len(),
{
    if s.len() == 0 {
        0
    } else if s[0].0 == a && s[0].1 == b {
        s[0].2 as int
    } else {
        pair_lookup(s.subrange(1, s.len() as int), a, b)
    }
}

/// Every stored value is non-negative.
pub open spec fn pair_entries_nonneg(s: Seq<(u64, u64, i128)>) -> bool {
    forall|i: int| 0 <= i < s.len() ==> s[i].2 >= 0
}

/// No key pair occurs twice.
pub open spec fn pair_keys_unique(s: Seq<(u64, u64, i128)>) -> bool {
    forall|i: int, j: int| 0 <= i < j < s.len()
        ==> !(s[i].0 == s[j].0 && s[i].1 == s[j].1)
}

proof fn lemma_pair_lookup_at_index(s: Seq<(u64, u64, i128)>, i: int)
    requires
        pair_keys_unique(s),
        0 <= i < s.len(),
    ensures
        pair_lookup(s, s[i].0, s[i].1) == s[i].2,
    decreases s.len(),
{
    if i == 0 {
    } else {
        let rest = s.subrange(1, s.len() as int);
        assert(!(s[0].0 == s[i].0 && s[0].1 == s[i].1));
        assert(pair_keys_unique(rest)) by {
            assert(forall|p: int, q: int|
                0 <= p < q < rest.len() ==> rest[p] == s[p + 1] && rest[q] == s[q + 1]);
        }
        assert(rest[i - 1] == s[i]);
        lemma_pair_lookup_at_index(rest, i - 1);
    }
}

proof fn lemma_pair_lookup_absent(s: Seq<(u64, u64, i128)>, a: u64, b: u64)
    requires
        forall|i: int| 0 <= i < s.len() ==> !(s[i].0 == a && s[i].1 == b),
    ensures
        pair_lookup(s, a, b) == 0,
    decreases s.len(),
{
    if s.len() > 0 {
        let rest = s.subrange(1, s.len() as int);
        assert(forall|i: int| 0 <= i < rest.len() ==> rest[i] == s[i + 1]);
        lemma_pair_lookup_absent(rest, a, b);
    }
}

proof fn lemma_pair_update(s: Seq<(u64, u64, i128)>, i: int, v: i128)
    requires
        pair_keys_unique(s),
        0 <= i < s.len(),
    ensures
        pair_lookup(s.update(i, (s[i].0, s[i].1, v)), s[i].0, s[i].1) == v,
        forall|a: u64, b: u64| !(a == s[i].0 && b == s[i].1) ==>
            pair_lookup(s.update(i, (s[i].0, s[i].1, v)), a, b) == pair_lookup(s, a, b),
        pair_keys_unique(s.update(i, (s[i].0, s[i].1, v))),
        pair_entries_nonneg(s) && v >= 0
            ==> pair_entries_nonneg(s.update(i, (s[i].0, s[i].1, v))),
    decreases s.len(),
{
    let t = s.update(i, (s[i].0, s[i].1, v));
    let trest = t.subrange(1, t.len() as int);
    assert(forall|j: int| 0 <= j < s.len() && j != i ==> t[j] == s[j]);
    if i == 0 {
        assert(trest =~= s.subrange(1, s.len() as int));
        assert forall|a: u64, b: u64| !(a == s[i].0 && b == s[i].1)
            implies pair_lookup(t, a, b) == pair_lookup(s, a, b) by {
            assert(pair_lookup(t, a, b) == pair_lookup(trest, a, b));
            assert(pair_lookup(s, a, b) == pair_lookup(s.subrange(1, s.len() as int), a, b));
        }
    } else {
        let rest = s.subrange(1, s.len() as int);
        assert(pair_keys_unique(rest)) by {
            assert(forall|p: int, q: int|
                0 <= p < q < rest.len() ==> rest[p] == s[p + 1] && rest[q] == s[q + 1]);
        }
        assert(rest[i - 1] == s[i]);
        assert(trest =~= rest.update(i - 1, (s[i].0, s[i].1, v)));
        lemma_pair_update(rest, i - 1, v);
        assert(!(s[0].0 == s[i].0 && s[0].1 == s[i].1));
        assert(t[0] == s[0]);
        assert forall|a: u64, b: u64| !(a == s[i].0 && b == s[i].1)
            implies pair_lookup(t, a, b) == pair_lookup(s, a, b) by {
            if s[0].0 == a && s[0].1 == b {
                assert(pair_lookup(t, a, b) == t[0].2);
                assert(pair_lookup(s, a, b) == s[0].2);
            } else {
                assert(pair_lookup(t, a, b) == pair_lookup(trest, a, b));
                assert(pair_lookup(s, a, b) == pair_lookup(rest, a, b));
            }
        }
    }
}

proof fn lemma_pair_push(s: Seq<(u64, u64, i128)>, a: u64, b: u64, v: i128)
    requires
        forall|i: int| 0 <= i < s.len() ==> !(s[i].0 == a && s[i].1 == b),
    ensures
        pair_lookup(s.push((a, b, v)), a, b) == v,
        forall|a2: u64, b2: u64| !(a2 == a && b2 == b) ==>
            pair_lookup(s.push((a, b, v)), a2, b2) == pair_lookup(s, a2, b2),
        pair_keys_unique(s) ==> pair_keys_unique(s.push((a, b, v))),
        pair_entries_nonneg(s) && v >= 0 ==> pair_entries_nonneg(s.push((a, b, v))),
    decreases s.len(),
{
    let t = s.push((a, b, v));
    let trest = t.subrange(1, t.len() as int);
    assert(forall|j: int| 0 <= j < s.len() ==> t[j] == s[j]);
    assert(t[s.len() as int] == (a, b, v));
    if s.len() == 0 {
        let e = Seq::<(u64, u64, i128)>::empty();
        assert(trest =~= e);
        assert(pair_lookup(t, a, b) == v);
        assert forall|a2: u64, b2: u64| !(a2 == a && b2 == b)
            implies pair_lookup(t, a2, b2) == pair_lookup(s, a2, b2) by {
            assert(pair_lookup(e, a2, b2) == 0);
            assert(pair_lookup(t, a2, b2) == pair_lookup(trest, a2, b2));
            assert(pair_lookup(s, a2, b2) == 0);
        }
    } else {
        let rest = s.subrange(1, s.len() as int);
        assert(forall|i: int| 0 <= i < rest.len() ==> rest[i] == s[i + 1]);
        assert(trest =~= rest.push((a, b, v)));
        lemma_pair_push(rest, a, b, v);
        assert(t[0] == s[0]);
        assert(!(s[0].0 == a && s[0].1 == b));
        assert(pair_lookup(t, a, b) == pair_lookup(trest, a, b));
        assert forall|a2: u64, b2: u64| !(a2 == a && b2 == b)
            implies pair_lookup(t, a2, b2) == pair_lookup(s, a2, b2) by {
            if s[0].0 == a2 && s[0].1 == b2 {
                assert(pair_lookup(t, a2, b2) == t[0].2);
                assert(pair_lookup(s, a2, b2) == s[0].2);
            } else {
                assert(pair_lookup(t, a2, b2) == pair_lookup(trest, a2, b2));
                assert(pair_lookup(s, a2, b2) == pair_lookup(rest, a2, b2));
            }
        }
    }
}

/// Store from an ordered pair of account identifiers to a non-negative
/// amount; an absent pair reads as 0.
pub struct PairMap {
    entries: Vec<(u64, u64, i128)>,
}

impl View for PairMap {
    type V = Map<(u64, u64), int>;

    closed spec fn view(&self) -> Map<(u64, u64), int> {
        Map::total(|k: (u64, u64)| pair_lookup(self.entries@, k.0, k.1))
    }
}

impl PairMap {
    /// Key pairs are unique and every stored amount is non-negative.
    pub closed spec fn wf(&self) -> bool {
        pair_keys_unique(self.entries@) && pair_entries_nonneg(self.entries@)
    }

    /// Every amount a well-formed store holds is non-negative.
    pub proof fn lemma_nonneg(&self, a: u64, b: u64)
        requires
            self.wf(),
        ensures
            self@[(a, b)] >= 0,
    {
        lemma_pair_lookup_nonneg(self.entries@, a, b);
    }

    /// The empty store: every pair reads 0.
    pub fn new() -> (r: PairMap)
        ensures
            r.wf(),
            r@ == Map::total(|k: (u64, u64)| 0int),
    {
        let r = PairMap { entries: Vec::new() };
        proof {
            assert(r@ =~= Map::total(|k: (u64, u64)| 0int));
        }
        r
    }

    fn index_of(&self, a: u64, b: u64) -> (r: Option<usize>)
        ensures
            match r {
                Some(i) => i < self.entries@.len()
                    && self.entries@[i as int].0 == a && self.entries@[i as int].1 == b,
                None => forall|j: int| 0 <= j < self.entries@.len()
                    ==> !(self.entries@[j].0 == a && self.entries@[j].1 == b),
            },
    {
        let n = self.entries.len();
        let mut i: usize = 0;
        while i < n
            invariant
                i <= n,
                n == self.entries@.len(),
                forall|j: int| 0 <= j < i
                    ==> !(self.entries@[j].0 == a && self.entries@[j].1 == b),
            decreases n - i,
        {
            if self.entries[i].0 == a && self.entries[i].1 == b {
                return Some(i);
            }
            i = i + 1;
        }
        None
    }

    /// Reads the amount stored under `(a, b)`, defaulting to 0.
    pub fn get(&self, a: u64, b: u64) -> (r: i128)
        requires
            self.wf(),
        ensures
            r as int == self@[(a, b)],
            r >= 0,
    {
        match self.index_of(a, b) {
            Some(i) => {
                proof {
                    lemma_pair_lookup_at_index(self.entries@, i as int);
                    lemma_pair_lookup_nonneg(self.entries@, a, b);
                }
                self.entries[i].2
            }
            None => {
                proof {
                    lemma_pair_lookup_absent(self.entries@, a, b);
                }
                0
            }
        }
    }

    /// Stores `v` under `(a, b)`, materializing the entry on first write.
    pub fn set(&mut self, a: u64, b: u64, v: i128)
        requires
            old(self).wf(),
            v >= 0,
        ensures
            final(self).wf(),
            final(self)@ == old(self)@.insert((a, b), v as int),
    {
        let ghost s0 = self.entries@;
        match self.index_of(a, b) {
            Some(i) => {
                self.entries.set(i, (a, b, v));
                proof {
                    assert(s0[i as int].0 == a && s0[i as int].1 == b);
                    lemma_pair_update(s0, i as int, v);
                    assert(self.entries@ =~= s0.update(i as int, (a, b, v)));
                    assert(self@ =~= old(self)@.insert((a, b), v as int));
                }
            }
            None => {
                self.entries.push((a, b, v));
                proof {
                    lemma_pair_push(s0, a, b, v);
                    assert(self@ =~= old(self)@.insert((a, b), v as int));
                }
            }
        }
    }
}

proof fn lemma_pair_lookup_nonneg(s: Seq<(u64, u64, i128)>, a: u64, b: u64)
    requires
        pair_entries_nonneg(s),
    ensures
        pair_lookup(s, a, b) >= 0,
    decreases s.len(),
{
    if s.len() > 0 {
        let rest = s.subrange(1, s.len() as int);
        assert(forall|i: int| 0 <= i < rest.len() ==> rest[i] == s[i + 1]);
        lemma_pair_lookup_nonneg(rest, a, b);
    }
}

} // verus!
