use vstd::prelude::*;

use crate::error::FtError;

verus! {

/// Balance of `a` in a balance map: zero for an account without an entry.
pub open spec fn balance_in(m: Map<Seq<char>, nat>, a: Seq<char>) -> nat {
    if m.contains_key(a) {
        m[a]
    } else {
        0
    }
}

/// What moving `amount` tokens from `from` to `to` does to a balance map,
/// or the first reason it is refused.
pub open spec fn transfer_spec(
    m: Map<Seq<char>, nat>,
    from: Seq<char>,
    to: Seq<char>,
    amount: nat,
) -> Result<Map<Seq<char>, nat>, FtError> {
    if from == to {
        Err(FtError::SameAccount)
    } else if amount == 0 {
        Err(FtError::ZeroAmount)
    } else if !m.contains_key(from) {
        Err(FtError::NotRegistered)
    } else if m[from] < amount {
        Err(FtError::InsufficientBalance)
    } else if !m.contains_key(to) {
        Err(FtError::NotRegistered)
    } else {
        Ok(m.insert(from, (m[from] - amount) as nat).insert(to, (m[to] + amount) as nat))
    }
}

spec fn keys_unique(s: Seq<(String, u128)>) -> bool {
    forall|i: int, j: int|
        0 <= i < s.len() && 0 <= j < s.len() && i != j ==> s[i].0@ != s[j].0@
}

spec fn has_key(s: Seq<(String, u128)>, a: Seq<char>) -> bool {
    exists|i: int| 0 <= i < s.len() && s[i].0@ == a
}

spec fn entry_balance(s: Seq<(String, u128)>, a: Seq<char>) -> nat {
    if has_key(s, a) {
        s[choose|i: int| 0 <= i < s.len() && s[i].0@ == a].1 as nat
    } else {
        0
    }
}

spec fn entries_map(s: Seq<(String, u128)>) -> Map<Seq<char>, nat> {
    Map::new(|a: Seq<char>| has_key(s, a), |a: Seq<char>| entry_balance(s, a))
}

spec fn entries_sum(s: Seq<(String, u128)>) -> int
    decreases s.len(),
{
    if s.len() == 0 {
        0
    } else {
        entries_sum(s.drop_last()) + s.last().1
    }
}

proof fn lemma_entry_at(s: Seq<(String, u128)>, i: int)
    requires
        keys_unique(s),
        0 <= i < s.len(),
    ensures
        has_key(s, s[i].0@),
        entry_balance(s, s[i].0@) == s[i].1,
{
    assert(s[i].0@ == s[i].0@);
    let j = choose|j: int| 0 <= j < s.len() && s[j].0@ == s[i].0@;
    assert(i == j);
}

proof fn lemma_sum_nonneg(s: Seq<(String, u128)>)
    ensures
        entries_sum(s) >= 0,
    decreases s.len(),
{
    if s.len() > 0 {
        lemma_sum_nonneg(s.drop_last());
    }
}

proof fn lemma_elem_le_sum(s: Seq<(String, u128)>, i: int)
    requires
        0 <= i < s.len(),
    ensures
        s[i].1 <= entries_sum(s),
    decreases s.len(),
{
    lemma_sum_nonneg(s.drop_last());
    if i < s.len() - 1 {
        lemma_elem_le_sum(s.drop_last(), i);
    }
}

proof fn lemma_sum_update(s: Seq<(String, u128)>, i: int, v: u128)
    requires
        0 <= i < s.len(),
    ensures
        entries_sum(s.update(i, (s[i].0, v))) == entries_sum(s) - s[i].1 + v,
    decreases s.len(),
{
    let t = s.update(i, (s[i].0, v));
    if i == s.len() - 1 {
        assert(t.drop_last() =~= s.drop_last());
    } else {
        lemma_sum_update(s.drop_last(), i, v);
        assert(t.drop_last() =~= s.drop_last().update(i, (s[i].0, v)));
    }
}

proof fn lemma_sum_remove(s: Seq<(String, u128)>, i: int)
    requires
        0 <= i < s.len(),
    ensures
        entries_sum(s.remove(i)) == entries_sum(s) - s[i].1,
    decreases s.len(),
{
    if i == s.len() - 1 {
        assert(s.remove(i) =~= s.drop_last());
    } else {
        lemma_sum_remove(s.drop_last(), i);
        assert(s.remove(i).drop_last() =~= s.drop_last().remove(i));
    }
}

proof fn lemma_map_update(s: Seq<(String, u128)>, i: int, v: u128)
    requires
        keys_unique(s),
        0 <= i < s.len(),
    ensures
        keys_unique(s.update(i, (s[i].0, v))),
        entries_map(s.update(i, (s[i].0, v))) == entries_map(s).insert(s[i].0@, v as nat),
        entries_sum(s.update(i, (s[i].0, v))) == entries_sum(s) - s[i].1 + v,
{
    let t = s.update(i, (s[i].0, v));
    let k = s[i].0@;
    assert forall|j: int| 0 <= j < t.len() implies #[trigger] t[j].0@ == s[j].0@ by {}
    assert(keys_unique(t));
    assert forall|a: Seq<char>| has_key(t, a) == has_key(s, a) by {
        if has_key(s, a) {
            let j = choose|j: int| 0 <= j < s.len() && s[j].0@ == a;
            assert(t[j].0@ == a);
        }
        if has_key(t, a) {
            let j = choose|j: int| 0 <= j < t.len() && t[j].0@ == a;
            assert(s[j].0@ == a);
        }
    }
    lemma_entry_at(t, i);
    assert forall|a: Seq<char>| #[trigger] has_key(s, a) && a != k implies entry_balance(t, a)
        == entry_balance(s, a) by {
        let j = choose|j: int| 0 <= j < s.len() && s[j].0@ == a;
        lemma_entry_at(s, j);
        lemma_entry_at(t, j);
    }
    assert(entries_map(t) =~= entries_map(s).insert(k, v as nat));
    lemma_sum_update(s, i, v);
}

proof fn lemma_map_push(s: Seq<(String, u128)>, e: (String, u128))
    requires
        keys_unique(s),
        !has_key(s, e.0@),
    ensures
        keys_unique(s.push(e)),
        entries_map(s.push(e)) == entries_map(s).insert(e.0@, e.1 as nat),
        entries_sum(s.push(e)) == entries_sum(s) + e.1,
{
    let t = s.push(e);
    assert(t.drop_last() =~= s);
    assert forall|j: int| 0 <= j < s.len() implies #[trigger] t[j] == s[j] by {}
    assert forall|i: int, j: int|
        0 <= i < t.len() && 0 <= j < t.len() && i != j implies t[i].0@ != t[j].0@ by {
        if i < s.len() && j < s.len() {
            assert(s[i].0@ != s[j].0@);
        } else if i < s.len() {
            assert(s[i].0@ != e.0@);
        } else {
            assert(s[j].0@ != e.0@);
        }
    }
    assert forall|a: Seq<char>| has_key(t, a) == (has_key(s, a) || a == e.0@) by {
        if has_key(s, a) {
            let j = choose|j: int| 0 <= j < s.len() && s[j].0@ == a;
            assert(t[j].0@ == a);
        }
        if a == e.0@ {
            assert(t[s.len() as int].0@ == a);
        }
        if has_key(t, a) && a != e.0@ {
            let j = choose|j: int| 0 <= j < t.len() && t[j].0@ == a;
            assert(s[j].0@ == a);
        }
    }
    lemma_entry_at(t, s.len() as int);
    assert forall|a: Seq<char>| #[trigger] has_key(s, a) && a != e.0@ implies entry_balance(t, a)
        == entry_balance(s, a) by {
        let j = choose|j: int| 0 <= j < s.len() && s[j].0@ == a;
        lemma_entry_at(s, j);
        lemma_entry_at(t, j);
    }
    assert(entries_map(t) =~= entries_map(s).insert(e.0@, e.1 as nat));
}

proof fn lemma_map_remove(s: Seq<(String, u128)>, i: int)
    requires
        keys_unique(s),
        0 <= i < s.len(),
    ensures
        keys_unique(s.remove(i)),
        entries_map(s.remove(i)) == entries_map(s).remove(s[i].0@),
        entries_sum(s.remove(i)) == entries_sum(s) - s[i].1,
{
    let t = s.remove(i);
    let k = s[i].0@;
    assert forall|j: int| 0 <= j < t.len() implies #[trigger] t[j] == (if j < i {
        s[j]
    } else {
        s[j + 1]
    }) by {}
    assert forall|a: int, b: int|
        0 <= a < t.len() && 0 <= b < t.len() && a != b implies t[a].0@ != t[b].0@ by {
        let a2 = if a < i { a } else { a + 1 };
        let b2 = if b < i { b } else { b + 1 };
        assert(s[a2].0@ != s[b2].0@);
    }
    assert forall|a: Seq<char>| has_key(t, a) == (has_key(s, a) && a != k) by {
        if has_key(s, a) && a != k {
            let j = choose|j: int| 0 <= j < s.len() && s[j].0@ == a;
            assert(j != i);
            let j2 = if j < i { j } else { j - 1 };
            assert(t[j2].0@ == a);
        }
        if has_key(t, a) {
            let j = choose|j: int| 0 <= j < t.len() && t[j].0@ == a;
            let j2 = if j < i { j } else { j + 1 };
            assert(s[j2].0@ == a);
            assert(j2 != i);
        }
    }
    assert forall|a: Seq<char>| #[trigger] has_key(t, a) implies entry_balance(t, a)
        == entry_balance(s, a) by {
        let j = choose|j: int| 0 <= j < t.len() && t[j].0@ == a;
        let j2 = if j < i { j } else { j + 1 };
        lemma_entry_at(t, j);
        lemma_entry_at(s, j2);
    }
    assert(entries_map(t) =~= entries_map(s).remove(k));
    lemma_sum_remove(s, i);
}

/// Sum of the balances in a list of (account, balance) pairs.
pub open spec fn pairs_sum(s: Seq<(Seq<char>, nat)>) -> int
    decreases s.len(),
{
    if s.len() == 0 {
        0
    } else {
        pairs_sum(s.drop_last()) + s.last().1
    }
}

/// The pairs name distinct accounts and list exactly the entries of `m`.
pub open spec fn lists_exactly(s: Seq<(Seq<char>, nat)>, m: Map<Seq<char>, nat>) -> bool {
    &&& forall|i: int, j: int| 0 <= i < s.len() && 0 <= j < s.len() && i != j ==> s[i].0 != s[j].0
    &&& forall|i: int| 0 <= i < s.len() ==> m.contains_key(#[trigger] s[i].0) && m[s[i].0] == s[i].1
    &&& forall|a: Seq<char>| #[trigger]
        m.contains_key(a) ==> exists|i: int| 0 <= i < s.len() && s[i].0 == a
}

spec fn pairs_of(s: Seq<(String, u128)>) -> Seq<(Seq<char>, nat)> {
    s.map_values(|e: (String, u128)| (e.0@, e.1 as nat))
}

proof fn lemma_pairs_sum(s: Seq<(String, u128)>)
    ensures
        pairs_sum(pairs_of(s)) == entries_sum(s),
    decreases s.len(),
{
    if s.len() > 0 {
        lemma_pairs_sum(s.drop_last());
        assert(pairs_of(s).drop_last() =~= pairs_of(s.drop_last()));
    }
}

proof fn lemma_pairs_list(s: Seq<(String, u128)>)
    requires
        keys_unique(s),
    ensures
        lists_exactly(pairs_of(s), entries_map(s)),
{
    let p = pairs_of(s);
    assert forall|i: int| 0 <= i < p.len() implies entries_map(s).contains_key(#[trigger] p[i].0)
        && entries_map(s)[p[i].0] == p[i].1 by {
        lemma_entry_at(s, i);
    }
    assert forall|a: Seq<char>| #[trigger]
        entries_map(s).contains_key(a) implies exists|i: int| 0 <= i < p.len() && p[i].0 == a by {
        let j = choose|j: int| 0 <= j < s.len() && s[j].0@ == a;
        assert(p[j].0 == a);
    }
}

/// Token balances of registered accounts, with the total supply they add up to.
pub struct Ledger {
    entries: Vec<(String, u128)>,
    total_supply: u128,
}

impl Ledger {
    /// Registered accounts and their balances.
    pub closed spec fn balances(&self) -> Map<Seq<char>, nat> {
        entries_map(self.entries@)
    }

    /// The recorded total supply.
    pub closed spec fn supply(&self) -> nat {
        self.total_supply as nat
    }

    /// The registered accounts with their balances, each once.
    pub closed spec fn accounts(&self) -> Seq<(Seq<char>, nat)> {
        pairs_of(self.entries@)
    }

    /// The sum of the balances of all registered accounts.
    pub closed spec fn balance_sum(&self) -> int {
        entries_sum(self.entries@)
    }

    /// Each account has one entry and the balances add up to the total supply.
    pub closed spec fn wf(&self) -> bool {
        keys_unique(self.entries@) && entries_sum(self.entries@) == self.total_supply
    }

    /// In a well-formed ledger `accounts` lists each balance once, the
    /// balances add up to the total supply, and so none exceeds it.
    pub proof fn lemma_supply_is_sum(&self)
        requires
            self.wf(),
        ensures
            lists_exactly(self.accounts(), self.balances()),
            self.balance_sum() == pairs_sum(self.accounts()),
            self.balance_sum() == self.supply(),
            forall|a: Seq<char>| #[trigger]
                self.balances().contains_key(a) ==> self.balances()[a] <= self.supply(),
    {
        lemma_pairs_sum(self.entries@);
        lemma_pairs_list(self.entries@);
        assert forall|a: Seq<char>| #[trigger]
            self.balances().contains_key(a) implies self.balances()[a] <= self.supply() by {
            let s = self.entries@;
            let j = choose|j: int| 0 <= j < s.len() && s[j].0@ == a;
            lemma_entry_at(s, j);
            lemma_elem_le_sum(s, j);
        }
    }

    /// An empty ledger.
    pub fn new() -> (r: Self)
        ensures
            r.wf(),
            r.balances() == Map::<Seq<char>, nat>::empty(),
            r.supply() == 0,
    {
        let r = Ledger { entries: Vec::new(), total_supply: 0 };
        assert(r.balances() =~= Map::<Seq<char>, nat>::empty());
        r
    }

    fn find(&self, a: &String) -> (r: Option<usize>)
        ensures
            match r {
                Some(i) => i < self.entries@.len() && self.entries@[i as int].0@ == a@,
                None => !has_key(self.entries@, a@),
            },
    {
        let mut i: usize = 0;
        while i < self.entries.len()
            invariant
                0 <= i <= self.entries@.len(),
                forall|j: int| 0 <= j < i ==> self.entries@[j].0@ != a@,
            decreases self.entries@.len() - i,
        {
            if self.entries[i].0 == *a {
                return Some(i);
            }
            i += 1;
        }
        None
    }

    /// The recorded total supply.
    pub fn total_supply(&self) -> (r: u128)
        ensures
            r == self.supply(),
    {
        self.total_supply
    }

    /// Whether `a` has an entry.
    pub fn is_registered(&self, a: &String) -> (r: bool)
        requires
            self.wf(),
        ensures
            r == self.balances().contains_key(a@),
    {
        match self.find(a) {
            Some(i) => {
                proof {
                    lemma_entry_at(self.entries@, i as int);
                }
                true
            },
            None => false,
        }
    }

    /// Balance of `a`: zero for an unregistered account.
    pub fn balance_of(&self, a: &String) -> (r: u128)
        requires
            self.wf(),
        ensures
            r == balance_in(self.balances(), a@),
    {
        match self.find(a) {
            Some(i) => {
                proof {
                    lemma_entry_at(self.entries@, i as int);
                }
                self.entries[i].1
            },
            None => 0,
        }
    }

    /// Gives `a` an entry with a zero balance, unless it has one already;
    /// returns whether it was added.
    pub fn register(&mut self, a: String) -> (r: bool)
        requires
            old(self).wf(),
        ensures
            final(self).wf(),
            r == !old(self).balances().contains_key(a@),
            final(self).balances() == (if r {
                old(self).balances().insert(a@, 0)
            } else {
                old(self).balances()
            }),
            final(self).supply() == old(self).supply(),
    {
        match self.find(&a) {
            Some(i) => {
                proof {
                    lemma_entry_at(self.entries@, i as int);
                }
                false
            },
            None => {
                proof {
                    lemma_map_push(self.entries@, (a, 0u128));
                }
                self.entries.push((a, 0));
                true
            },
        }
    }

    /// Mints `amount` tokens into the balance of `a`.
    pub fn deposit(&mut self, a: &String, amount: u128) -> (r: Result<(), FtError>)
        requires
            old(self).wf(),
        ensures
            final(self).wf(),
            !old(self).balances().contains_key(a@) ==> r == Err::<(), FtError>(
                FtError::NotRegistered,
            ),
            old(self).balances().contains_key(a@) && old(self).supply() + amount > u128::MAX
                ==> r == Err::<(), FtError>(FtError::Overflow),
            r is Ok <==> old(self).balances().contains_key(a@) && old(self).supply() + amount
                <= u128::MAX,
            r is Err ==> *final(self) == *old(self),
            r is Ok ==> final(self).balances() == old(self).balances().insert(
                a@,
                (old(self).balances()[a@] + amount) as nat,
            ) && final(self).supply() == old(self).supply() + amount,
    {
        let i = match self.find(a) {
            Some(i) => i,
            None => {
                return Err(FtError::NotRegistered);
            },
        };
        proof {
            lemma_entry_at(self.entries@, i as int);
            lemma_elem_le_sum(self.entries@, i as int);
        }
        if amount > u128::MAX - self.total_supply {
            return Err(FtError::Overflow);
        }
        let key = self.entries[i].0.clone();
        let bal = self.entries[i].1;
        proof {
            lemma_map_update(self.entries@, i as int, (bal + amount) as u128);
        }
        self.entries.set(i, (key, bal + amount));
        self.total_supply = self.total_supply + amount;
        Ok(())
    }

    /// Burns `amount` tokens from the balance of `a`.
    pub fn withdraw(&mut self, a: &String, amount: u128) -> (r: Result<(), FtError>)
        requires
            old(self).wf(),
        ensures
            final(self).wf(),
            !old(self).balances().contains_key(a@) ==> r == Err::<(), FtError>(
                FtError::NotRegistered,
            ),
            old(self).balances().contains_key(a@) && old(self).balances()[a@] < amount ==> r
                == Err::<(), FtError>(FtError::InsufficientBalance),
            r is Ok <==> old(self).balances().contains_key(a@) && old(self).balances()[a@]
                >= amount,
            r is Err ==> *final(self) == *old(self),
            r is Ok ==> final(self).balances() == old(self).balances().insert(
                a@,
                (old(self).balances()[a@] - amount) as nat,
            ) && final(self).supply() == old(self).supply() - amount,
    {
        let i = match self.find(a) {
            Some(i) => i,
            None => {
                return Err(FtError::NotRegistered);
            },
        };
        proof {
            lemma_entry_at(self.entries@, i as int);
            lemma_elem_le_sum(self.entries@, i as int);
        }
        let bal = self.entries[i].1;
        if bal < amount {
            return Err(FtError::InsufficientBalance);
        }
        let key = self.entries[i].0.clone();
        proof {
            lemma_map_update(self.entries@, i as int, (bal - amount) as u128);
        }
        self.entries.set(i, (key, bal - amount));
        self.total_supply = self.total_supply - amount;
        Ok(())
    }

    /// Moves `amount` tokens from `from` to `to`; refused without any change
    /// for the first reason that `transfer_spec` gives.
    pub fn transfer(&mut self, from: &String, to: &String, amount: u128) -> (r: Result<
        (),
        FtError,
    >)
        requires
            old(self).wf(),
        ensures
            final(self).wf(),
            final(self).supply() == old(self).supply(),
            match transfer_spec(old(self).balances(), from@, to@, amount as nat) {
                Ok(m) => r is Ok && final(self).balances() == m,
                Err(e) => r == Err::<(), FtError>(e) && *final(self) == *old(self),
            },
    {
        if *from == *to {
            return Err(FtError::SameAccount);
        }
        if amount == 0 {
            return Err(FtError::ZeroAmount);
        }
        let fi = match self.find(from) {
            Some(i) => i,
            None => {
                return Err(FtError::NotRegistered);
            },
        };
        proof {
            lemma_entry_at(self.entries@, fi as int);
        }
        let from_bal = self.entries[fi].1;
        if from_bal < amount {
            return Err(FtError::InsufficientBalance);
        }
        let ti = match self.find(to) {
            Some(i) => i,
            None => {
                return Err(FtError::NotRegistered);
            },
        };
        proof {
            lemma_entry_at(self.entries@, ti as int);
        }
        let from_key = self.entries[fi].0.clone();
        proof {
            lemma_map_update(self.entries@, fi as int, (from_bal - amount) as u128);
        }
        self.entries.set(fi, (from_key, from_bal - amount));
        proof {
            lemma_elem_le_sum(self.entries@, ti as int);
        }
        let to_bal = self.entries[ti].1;
        let to_key = self.entries[ti].0.clone();
        proof {
            lemma_map_update(self.entries@, ti as int, (to_bal + amount) as u128);
        }
        self.entries.set(ti, (to_key, to_bal + amount));
        Ok(())
    }

    /// Removes the entry of `a`. An account with tokens is removed only when
    /// `force` is set, and its tokens are then burnt. Returns whether an entry
    /// was removed.
    pub fn unregister(&mut self, a: &String, force: bool) -> (r: Result<bool, FtError>)
        requires
            old(self).wf(),
        ensures
            final(self).wf(),
            !old(self).balances().contains_key(a@) ==> r == Ok::<bool, FtError>(false)
                && *final(self) == *old(self),
            old(self).balances().contains_key(a@) && old(self).balances()[a@] > 0 && !force
                ==> r == Err::<bool, FtError>(FtError::PositiveBalance) && *final(self)
                == *old(self),
            old(self).balances().contains_key(a@) && (old(self).balances()[a@] == 0 || force)
                ==> r == Ok::<bool, FtError>(true) && final(self).balances() == old(self).balances().remove(a@) && final(self).supply() == old(self).supply() - old(self).balances()[a@],
    {
        let i = match self.find(a) {
            Some(i) => i,
            None => {
                return Ok(false);
            },
        };
        proof {
            lemma_entry_at(self.entries@, i as int);
            lemma_elem_le_sum(self.entries@, i as int);
        }
        let bal = self.entries[i].1;
        if bal > 0 && !force {
            return Err(FtError::PositiveBalance);
        }
        proof {
            lemma_map_remove(self.entries@, i as int);
        }
        self.entries.remove(i);
        self.total_supply = self.total_supply - bal;
        Ok(true)
    }
}

} // verus!
