//! Balances of key-held wallet accounts, as an association list from
//! address to lamports. An address that never received funds has balance 0.

use vstd::prelude::*;

verus! {

pub struct Bank {
    pub entries: Vec<(u64, u64)>,
}

impl Bank {
    /// Keys are unique, so each address has one well-defined balance.
    pub open spec fn wf(self) -> bool {
        forall|i: int, j: int|
            0 <= i < j < self.entries@.len() ==> (#[trigger] self.entries@[i]).0 != (
            #[trigger] self.entries@[j]).0
    }

    pub open spec fn has_acct(self, addr: u64) -> bool {
        exists|i: int| 0 <= i < self.entries@.len() && (#[trigger] self.entries@[i]).0 == addr
    }

    pub open spec fn acct_idx(self, addr: u64) -> int {
        choose|i: int| 0 <= i < self.entries@.len() && (#[trigger] self.entries@[i]).0 == addr
    }

    /// The balance of `addr`: its recorded lamports, or 0 if it has none.
    pub open spec fn spec_bal(self, addr: u64) -> u64 {
        if self.has_acct(addr) {
            self.entries@[self.acct_idx(addr)].1
        } else {
            0
        }
    }

    pub fn new() -> (r: Bank)
        ensures
            r.wf(),
            r.entries@.len() == 0,
            forall|a: u64| r.spec_bal(a) == 0,
    {
        Bank { entries: Vec::new() }
    }

    fn find(&self, addr: u64) -> (r: Option<usize>)
        ensures
            match r {
                Some(i) => i < self.entries@.len() && self.entries@[i as int].0 == addr,
                None => !self.has_acct(addr),
            },
    {
        let mut i: usize = 0;
        while i < self.entries.len()
            invariant
                i <= self.entries@.len(),
                forall|j: int| 0 <= j < i ==> (#[trigger] self.entries@[j]).0 != addr,
            decreases self.entries@.len() - i,
        {
            if self.entries[i].0 == addr {
                return Some(i);
            }
            i = i + 1;
        }
        None
    }

    pub fn balance_of(&self, addr: u64) -> (r: u64)
        requires
            self.wf(),
        ensures
            r == self.spec_bal(addr),
    {
        match self.find(addr) {
            Some(i) => {
                proof {
                    let j = self.acct_idx(addr);
                    assert(0 <= j < self.entries@.len() && self.entries@[j].0 == addr);
                }
                self.entries[i].1
            },
            None => 0,
        }
    }

    /// Sets the balance of `addr` to `value`, leaving every other balance
    /// unchanged.
    pub fn set_balance(&mut self, addr: u64, value: u64)
        requires
            old(self).wf(),
        ensures
            final(self).wf(),
            final(self).spec_bal(addr) == value,
            forall|b: u64| b != addr ==> final(self).spec_bal(b) == old(self).spec_bal(b),
    {
        let r = self.find(addr);
        match r {
            Some(i) => {
                self.entries.set(i, (addr, value));
                proof {
                    let post = *self;
                    let pre = *old(self);
                    assert(post.entries@[i as int] == (addr, value));
                    assert(post.has_acct(addr));
                    assert(post.entries@[post.acct_idx(addr)].0 == addr);
                    assert(post.acct_idx(addr) == i as int);
                    assert forall|b: u64| b != addr implies post.spec_bal(b) == pre.spec_bal(b) by {
                        if pre.has_acct(b) {
                            let j = pre.acct_idx(b);
                            assert(pre.entries@[j].0 == b);
                            assert(j != i as int);
                            assert(post.entries@[j].0 == b);
                            assert(post.has_acct(b));
                            let k = post.acct_idx(b);
                            assert(post.entries@[k].0 == b);
                            assert(k != i as int);
                            assert(pre.entries@[k].0 == b);
                            assert(k == j);
                        } else {
                            if post.has_acct(b) {
                                let k = post.acct_idx(b);
                                assert(post.entries@[k].0 == b);
                                assert(k != i as int);
                                assert(pre.entries@[k].0 == b);
                            }
                        }
                    }
                }
            },
            None => {
                self.entries.push((addr, value));
                proof {
                    let post = *self;
                    let pre = *old(self);
                    let n = pre.entries@.len() as int;
                    assert(post.entries@[n].0 == addr);
                    assert(post.has_acct(addr));
                    assert(post.entries@[post.acct_idx(addr)].0 == addr);
                    assert forall|i2: int, j2: int|
                        0 <= i2 < j2 < post.entries@.len() implies (#[trigger] post.entries@[i2]).0
                        != (#[trigger] post.entries@[j2]).0 by {
                        if j2 == n {
                            assert(post.entries@[i2] == pre.entries@[i2]);
                        }
                    }
                    assert(post.acct_idx(addr) == n);
                    assert forall|b: u64| b != addr implies post.spec_bal(b) == pre.spec_bal(b) by {
                        if pre.has_acct(b) {
                            let j = pre.acct_idx(b);
                            assert(pre.entries@[j].0 == b);
                            assert(post.entries@[j].0 == b);
                            assert(post.has_acct(b));
                            let k = post.acct_idx(b);
                            assert(post.entries@[k].0 == b);
                            assert(k != n);
                            assert(pre.entries@[k].0 == b);
                            assert(k == j);
                        } else {
                            if post.has_acct(b) {
                                let k = post.acct_idx(b);
                                assert(post.entries@[k].0 == b);
                                assert(k != n);
                                assert(pre.entries@[k].0 == b);
                            }
                        }
                    }
                }
            },
        }
    }

    /// Adds `amount` lamports to `addr`.
    pub fn credit(&mut self, addr: u64, amount: u64)
        requires
            old(self).wf(),
            old(self).spec_bal(addr) + amount <= u64::MAX,
        ensures
            final(self).wf(),
            final(self).spec_bal(addr) == old(self).spec_bal(addr) + amount,
            forall|b: u64| b != addr ==> final(self).spec_bal(b) == old(self).spec_bal(b),
    {
        let cur = self.balance_of(addr);
        self.set_balance(addr, cur + amount);
    }

    /// Removes `amount` lamports from `addr`.
    pub fn debit(&mut self, addr: u64, amount: u64)
        requires
            old(self).wf(),
            amount <= old(self).spec_bal(addr),
        ensures
            final(self).wf(),
            final(self).spec_bal(addr) == old(self).spec_bal(addr) - amount,
            forall|b: u64| b != addr ==> final(self).spec_bal(b) == old(self).spec_bal(b),
    {
        let cur = self.balance_of(addr);
        self.set_balance(addr, cur - amount);
    }
}

} // verus!
