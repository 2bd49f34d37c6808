use vstd::prelude::*;

verus! {

spec fn names_unique(s: Seq<String>) -> bool {
    forall|i: int, j: int| 0 <= i < s.len() && 0 <= j < s.len() && i != j ==> s[i]@ != s[j]@
}

spec fn names_of(s: Seq<String>) -> Set<Seq<char>> {
    Set::new(|a: Seq<char>| exists|i: int| 0 <= i < s.len() && s[i]@ == a)
}

/// A set of account names, each held once.
pub struct Whitelist {
    accounts: Vec<String>,
}

impl Whitelist {
    /// The names in the set.
    pub closed spec fn members(&self) -> Set<Seq<char>> {
        names_of(self.accounts@)
    }

    /// No name is held twice.
    pub closed spec fn wf(&self) -> bool {
        names_unique(self.accounts@)
    }

    /// An empty set.
    pub fn new() -> (r: Self)
        ensures
            r.wf(),
            r.members() == Set::<Seq<char>>::empty(),
    {
        let r = Whitelist { accounts: Vec::new() };
        assert(r.members() =~= Set::<Seq<char>>::empty());
        r
    }

    fn position(&self, a: &String) -> (r: Option<usize>)
        ensures
            match r {
                Some(i) => i < self.accounts@.len() && self.accounts@[i as int]@ == a@,
                None => !self.members().contains(a@),
            },
    {
        let mut i: usize = 0;
        while i < self.accounts.len()
            invariant
                0 <= i <= self.accounts@.len(),
                forall|j: int| 0 <= j < i ==> self.accounts@[j]@ != a@,
            decreases self.accounts@.len() - i,
        {
            if self.accounts[i] == *a {
                return Some(i);
            }
            i += 1;
        }
        None
    }

    /// Whether `a` is in the set.
    pub fn contains(&self, a: &String) -> (r: bool)
        ensures
            r == self.members().contains(a@),
    {
        self.position(a).is_some()
    }

    /// Adds `a`; nothing changes if it is there already.
    pub fn insert(&mut self, a: String)
        requires
            old(self).wf(),
        ensures
            final(self).wf(),
            final(self).members() == old(self).members().insert(a@),
    {
        if self.position(&a).is_none() {
            let ghost s = self.accounts@;
            self.accounts.push(a);
            proof {
                let t = self.accounts@;
                assert forall|j: int| 0 <= j < s.len() implies #[trigger] t[j] == s[j] by {}
                assert(t[s.len() as int]@ == a@);
                assert forall|b: Seq<char>|
                    names_of(t).contains(b) == (names_of(s).contains(b) || b == a@) by {
                    if names_of(s).contains(b) {
                        let j = choose|j: int| 0 <= j < s.len() && s[j]@ == b;
                        assert(t[j]@ == b);
                    }
                    if names_of(t).contains(b) && b != a@ {
                        let j = choose|j: int| 0 <= j < t.len() && t[j]@ == b;
                        assert(s[j]@ == b);
                    }
                }
                assert forall|x: int, y: int|
                    0 <= x < t.len() && 0 <= y < t.len() && x != y implies t[x]@ != t[y]@ by {
                    if x < s.len() && y < s.len() {
                        assert(s[x]@ != s[y]@);
                    } else if x < s.len() {
                        assert(s[x]@ != a@);
                    } else {
                        assert(s[y]@ != a@);
                    }
                }
                assert(names_of(t) =~= names_of(s).insert(a@));
            }
        } else {
            assert(old(self).members().insert(a@) =~= old(self).members());
        }
    }

    /// Removes `a`; nothing changes if it is not there.
    pub fn remove(&mut self, a: &String)
        requires
            old(self).wf(),
        ensures
            final(self).wf(),
            final(self).members() == old(self).members().remove(a@),
    {
        match self.position(a) {
            Some(i) => {
                let ghost s = self.accounts@;
                self.accounts.remove(i);
                proof {
                    let t = self.accounts@;
                    assert forall|j: int| 0 <= j < t.len() implies #[trigger] t[j] == (if j
                        < i {
                        s[j]
                    } else {
                        s[j + 1]
                    }) by {}
                    assert forall|x: int, y: int|
                        0 <= x < t.len() && 0 <= y < t.len() && x != y implies t[x]@ != t[y]@ by {
                        let x2 = if x < i {
                            x
                        } else {
                            x + 1
                        };
                        let y2 = if y < i {
                            y
                        } else {
                            y + 1
                        };
                        assert(s[x2]@ != s[y2]@);
                    }
                    assert forall|b: Seq<char>|
                        names_of(t).contains(b) == (names_of(s).contains(b) && b != a@) by {
                        if names_of(s).contains(b) && b != a@ {
                            let j = choose|j: int| 0 <= j < s.len() && s[j]@ == b;
                            assert(j != i);
                            let j2 = if j < i {
                                j
                            } else {
                                j - 1
                            };
                            assert(t[j2]@ == b);
                        }
                        if names_of(t).contains(b) {
                            let j = choose|j: int| 0 <= j < t.len() && t[j]@ == b;
                            let j2 = if j < i {
                                j
                            } else {
                                j + 1
                            };
                            assert(s[j2]@ == b);
                            assert(j2 != i);
                        }
                    }
                    assert(names_of(t) =~= names_of(s).remove(a@));
                }
            },
            None => {
                assert(old(self).members().remove(a@) =~= old(self).members());
            },
        }
    }
}

} // verus!
