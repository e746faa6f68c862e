use vstd::prelude::*;

use crate::errors::Error;
use crate::types::{
    coin_amt, coins_wf, lemma_coin_amt_absent, lemma_coin_amt_push, Addr, AddrV, Coin,
};

verus! {

/// One ledger row: the amount of one denomination held by one address.
/// Balances are held as 128-bit integers so that the sum of arbitrarily many
/// 64-bit seeded amounts can always be represented.
pub struct BalanceEntry {
    pub addr: Addr,
    pub denom: String,
    pub amount: u128,
}

impl Clone for BalanceEntry {
    fn clone(&self) -> (res: Self)
        ensures
            res == *self,
    {
        BalanceEntry { addr: self.addr.clone(), denom: self.denom.clone(), amount: self.amount }
    }
}

/// The sum of the amounts of the entries selected by `p`.
pub open spec fn sum_where(s: Seq<BalanceEntry>, p: spec_fn(BalanceEntry) -> bool) -> int
    decreases s.len(),
{
    if s.len() == 0 {
        0
    } else {
        (if p(s[0]) {
            s[0].amount as int
        } else {
            0
        }) + sum_where(s.skip(1), p)
    }
}

pub open spec fn bal_pred(a: AddrV, d: Seq<char>) -> spec_fn(BalanceEntry) -> bool {
    |e: BalanceEntry| e.addr@ == a && e.denom@ == d
}

pub open spec fn denom_pred(d: Seq<char>) -> spec_fn(BalanceEntry) -> bool {
    |e: BalanceEntry| e.denom@ == d
}

/// The balance of denomination `d` held by address `a`: zero for unknown
/// accounts and denominations.
pub open spec fn bal(s: Seq<BalanceEntry>, a: AddrV, d: Seq<char>) -> int {
    sum_where(s, bal_pred(a, d))
}

/// The total supply of denomination `d` across all addresses.
pub open spec fn total_of(s: Seq<BalanceEntry>, d: Seq<char>) -> int {
    sum_where(s, denom_pred(d))
}

pub proof fn lemma_sum_nonneg(s: Seq<BalanceEntry>, p: spec_fn(BalanceEntry) -> bool)
    ensures
        sum_where(s, p) >= 0,
    decreases s.len(),
{
    if s.len() > 0 {
        lemma_sum_nonneg(s.skip(1), p);
    }
}

pub proof fn lemma_sum_absent(s: Seq<BalanceEntry>, p: spec_fn(BalanceEntry) -> bool)
    requires
        forall|j: int| 0 <= j < s.len() ==> !p(s[j]),
    ensures
        sum_where(s, p) == 0,
    decreases s.len(),
{
    if s.len() > 0 {
        lemma_sum_absent(s.skip(1), p);
    }
}

pub proof fn lemma_sum_push(s: Seq<BalanceEntry>, e: BalanceEntry, p: spec_fn(
    BalanceEntry,
) -> bool)
    ensures
        sum_where(s.push(e), p) == sum_where(s, p) + (if p(e) {
            e.amount as int
        } else {
            0
        }),
    decreases s.len(),
{
    assert(s.push(e)[0] == if s.len() == 0 { e } else { s[0] });
    if s.len() == 0 {
        assert(s.push(e).skip(1) =~= Seq::<BalanceEntry>::empty());
        assert(sum_where(s.push(e).skip(1), p) == 0);
    } else {
        assert(s.push(e).skip(1) =~= s.skip(1).push(e));
        lemma_sum_push(s.skip(1), e, p);
    }
}

pub proof fn lemma_sum_update(s: Seq<BalanceEntry>, i: int, e: BalanceEntry, p: spec_fn(
    BalanceEntry,
) -> bool)
    requires
        0 <= i < s.len(),
    ensures
        sum_where(s.update(i, e), p) == sum_where(s, p) - (if p(s[i]) {
            s[i].amount as int
        } else {
            0
        }) + (if p(e) {
            e.amount as int
        } else {
            0
        }),
    decreases s.len(),
{
    if i == 0 {
        assert(s.update(0, e)[0] == e);
        assert(s.update(0, e).skip(1) =~= s.skip(1));
    } else {
        assert(s.update(i, e)[0] == s[0]);
        assert(s.update(i, e).skip(1) =~= s.skip(1).update(i - 1, e));
        lemma_sum_update(s.skip(1), i - 1, e, p);
    }
}

/// With all amounts non-negative, one selected entry is at most the sum.
pub proof fn lemma_sum_entry_le(s: Seq<BalanceEntry>, i: int, p: spec_fn(BalanceEntry) -> bool)
    requires
        0 <= i < s.len(),
        p(s[i]),
    ensures
        s[i].amount as int <= sum_where(s, p),
    decreases s.len(),
{
    if i == 0 {
        lemma_sum_nonneg(s.skip(1), p);
    } else {
        lemma_sum_entry_le(s.skip(1), i - 1, p);
    }
}

/// When exactly the entry at `i` is selected, the sum is its amount.
pub proof fn lemma_sum_single(s: Seq<BalanceEntry>, i: int, p: spec_fn(BalanceEntry) -> bool)
    requires
        0 <= i < s.len(),
        p(s[i]),
        forall|j: int| 0 <= j < s.len() && j != i ==> !p(s[j]),
    ensures
        sum_where(s, p) == s[i].amount as int,
    decreases s.len(),
{
    if i == 0 {
        lemma_sum_absent(s.skip(1), p);
    } else {
        lemma_sum_single(s.skip(1), i - 1, p);
    }
}

/// The account ledger: per-address balances of fungible value, with one row
/// per (address, denomination) pair.
pub struct Ledger {
    entries: Vec<BalanceEntry>,
}

impl View for Ledger {
    type V = Seq<BalanceEntry>;

    closed spec fn view(&self) -> Seq<BalanceEntry> {
        self.entries@
    }
}

impl Ledger {
    /// Well-formedness: one row per (address, denomination) pair, and every
    /// denomination's total supply small enough that crediting one more
    /// 64-bit amount can never overflow a 128-bit row.
    pub open spec fn wf(self) -> bool {
        &&& forall|i: int, j: int|
            0 <= i < j < self@.len() ==> !(self@[i].addr@ == self@[j].addr@ && self@[i].denom@
                == self@[j].denom@)
        &&& forall|d: Seq<char>| #[trigger]
            total_of(self@, d) <= self@.len() * (u64::MAX as int)
    }

    pub fn new() -> (l: Ledger)
        ensures
            l@.len() == 0,
            l.wf(),
    {
        Ledger { entries: Vec::new() }
    }

    /// An exact deep copy, for the router's snapshot/restore rollback.
    pub(crate) fn snapshot(&self) -> (r: Ledger)
        ensures
            r@ == self@,
    {
        let entries = self.entries.clone();
        proof {
            assert(entries@ =~= self.entries@);
        }
        Ledger { entries }
    }

    fn find(&self, a: &Addr, d: &String) -> (r: Option<usize>)
        ensures
            match r {
                Some(i) => i < self@.len() && self@[i as int].addr@ == a@ && self@[i as int].denom@
                    == d@,
                None => forall|j: int|
                    0 <= j < self@.len() ==> !(self@[j].addr@ == a@ && self@[j].denom@ == d@),
            },
    {
        let mut i: usize = 0;
        while i < self.entries.len()
            invariant
                i <= self.entries@.len(),
                forall|j: int|
                    0 <= j < i ==> !(self.entries@[j].addr@ == a@ && self.entries@[j].denom@
                        == d@),
            decreases self.entries@.len() - i,
        {
            if self.entries[i].addr == *a && self.entries[i].denom == *d {
                return Some(i);
            }
            i = i + 1;
        }
        None
    }

    /// Whether the ledger holds any row for `a`.
    pub(crate) fn has_rows(&self, a: &Addr) -> (b: bool)
        ensures
            b == exists|j: int| 0 <= j < self@.len() && self@[j].addr@ == a@,
    {
        let mut i: usize = 0;
        while i < self.entries.len()
            invariant
                i <= self.entries@.len(),
                forall|j: int| 0 <= j < i ==> self.entries@[j].addr@ != a@,
            decreases self.entries@.len() - i,
        {
            if self.entries[i].addr == *a {
                proof {
                    assert(self@[i as int].addr@ == a@);
                }
                return true;
            }
            i = i + 1;
        }
        false
    }

    /// A pure read: the current balance, zero for unknown accounts and
    /// denominations.
    pub fn balance_of(&self, a: &Addr, d: &String) -> (r: u128)
        requires
            self.wf(),
        ensures
            r as int == bal(self@, a@, d@),
    {
        match self.find(a, d) {
            None => {
                proof {
                    lemma_sum_absent(self@, bal_pred(a@, d@));
                }
                0
            },
            Some(i) => {
                proof {
                    assert forall|j: int|
                        0 <= j < self@.len() && j != i implies !(bal_pred(a@, d@)(self@[j])) by {
                        if 0 <= j < self@.len() && j != i {
                            if j < i as int {
                                assert(!(self@[j].addr@ == self@[i as int].addr@ && self@[j].denom@
                                    == self@[i as int].denom@));
                            } else {
                                assert(!(self@[i as int].addr@ == self@[j].addr@
                                    && self@[i as int].denom@ == self@[j].denom@));
                            }
                        }
                    }
                    lemma_sum_single(self@, i as int, bal_pred(a@, d@));
                }
                self.entries[i].amount
            },
        }
    }

    /// Adds `amount` of `d` to `a`, creating the row if it is absent. The
    /// caller must show the denomination's total stays within the row bound
    /// when the row already exists; a transfer satisfies this because it
    /// debits the same amount first.
    fn credit(&mut self, a: &Addr, d: &String, amount: u64)
        requires
            old(self).wf(),
            (exists|i: int|
                0 <= i < old(self)@.len() && old(self)@[i].addr@ == a@ && old(self)@[i].denom@
                    == d@) ==> total_of(old(self)@, d@) + amount <= old(self)@.len() * (
            u64::MAX as int),
        ensures
            final(self).wf(),
            forall|x: AddrV, y: Seq<char>|
                bal(final(self)@, x, y) == bal(old(self)@, x, y) + (if x == a@ && y == d@ {
                    amount as int
                } else {
                    0
                }),
            forall|y: Seq<char>|
                total_of(final(self)@, y) == total_of(old(self)@, y) + (if y == d@ {
                    amount as int
                } else {
                    0
                }),
            final(self)@.len() >= old(self)@.len(),
            forall|j: int|
                0 <= j < old(self)@.len() ==> (final(self)@[j].addr@ == old(self)@[j].addr@
                    && final(self)@[j].denom@ == old(self)@[j].denom@),
            forall|j: int|
                old(self)@.len() <= j < final(self)@.len() ==> (final(self)@[j].addr@ == a@
                    && final(self)@[j].denom@ == d@),
    {
        proof {
            vstd::std_specs::vec::axiom_spec_len(&self.entries);
        }
        let ghost s0 = self.entries@;
        match self.find(a, d) {
            Some(i) => {
                proof {
                    lemma_sum_entry_le(s0, i as int, denom_pred(d@));
                    assert(total_of(s0, d@) <= s0.len() * (u64::MAX as int));
                }
                let cur = self.entries[i].amount;
                let e = BalanceEntry { addr: a.clone(), denom: d.clone(), amount: cur + (
                amount as u128) };
                self.entries[i] = e;
                proof {
                    assert(self.entries@ == s0.update(i as int, e));
                    assert forall|x: AddrV, y: Seq<char>|
                        bal(self.entries@, x, y) == bal(s0, x, y) + (if x == a@ && y == d@ {
                            amount as int
                        } else {
                            0
                        }) by {
                        lemma_sum_update(s0, i as int, e, bal_pred(x, y));
                    }
                    assert forall|y: Seq<char>| #[trigger]
                        total_of(self.entries@, y) == total_of(s0, y) + (if y == d@ {
                            amount as int
                        } else {
                            0
                        }) by {
                        lemma_sum_update(s0, i as int, e, denom_pred(y));
                    }
                }
            },
            None => {
                let e = BalanceEntry { addr: a.clone(), denom: d.clone(), amount: amount as u128 };
                self.entries.push(e);
                proof {
                    assert(self.entries@ == s0.push(e));
                    assert forall|x: AddrV, y: Seq<char>|
                        bal(self.entries@, x, y) == bal(s0, x, y) + (if x == a@ && y == d@ {
                            amount as int
                        } else {
                            0
                        }) by {
                        lemma_sum_push(s0, e, bal_pred(x, y));
                    }
                    assert forall|y: Seq<char>| #[trigger]
                        total_of(self.entries@, y) == total_of(s0, y) + (if y == d@ {
                            amount as int
                        } else {
                            0
                        }) by {
                        lemma_sum_push(s0, e, denom_pred(y));
                    }
                    assert forall|y: Seq<char>| #[trigger]
                        total_of(self.entries@, y) <= self.entries@.len() * (u64::MAX as int) by {
                        assert(total_of(s0, y) <= s0.len() * (u64::MAX as int));
                        assert(total_of(self.entries@, y) == total_of(s0, y) + (if y == d@ {
                            amount as int
                        } else {
                            0
                        }));
                    }
                }
            },
        }
    }

    /// Removes `amount` of `d` from `a`; fails with `InsufficientFunds`,
    /// changing nothing, exactly when the balance is smaller than `amount`.
    fn debit(&mut self, a: &Addr, d: &String, amount: u64) -> (r: Result<(), Error>)
        requires
            old(self).wf(),
        ensures
            final(self).wf(),
            final(self)@.len() == old(self)@.len(),
            r is Ok <==> amount as int <= bal(old(self)@, a@, d@),
            r is Err ==> r == Err::<(), Error>(Error::InsufficientFunds) && final(self)@ == old(
                self,
            )@,
            r is Ok ==> forall|x: AddrV, y: Seq<char>|
                bal(final(self)@, x, y) == bal(old(self)@, x, y) - (if x == a@ && y == d@ {
                    amount as int
                } else {
                    0
                }),
            r is Ok ==> forall|y: Seq<char>|
                total_of(final(self)@, y) == total_of(old(self)@, y) - (if y == d@ {
                    amount as int
                } else {
                    0
                }),
    {
        let ghost s0 = self.entries@;
        match self.find(a, d) {
            None => {
                proof {
                    lemma_sum_absent(s0, bal_pred(a@, d@));
                }
                if amount == 0 {
                    Ok(())
                } else {
                    Err(Error::InsufficientFunds)
                }
            },
            Some(i) => {
                proof {
                    assert forall|j: int|
                        0 <= j < s0.len() && j != i implies !(bal_pred(a@, d@)(s0[j])) by {
                        if 0 <= j < s0.len() && j != i {
                            if j < i as int {
                                assert(!(s0[j].addr@ == s0[i as int].addr@ && s0[j].denom@
                                    == s0[i as int].denom@));
                            } else {
                                assert(!(s0[i as int].addr@ == s0[j].addr@ && s0[i as int].denom@
                                    == s0[j].denom@));
                            }
                        }
                    }
                    lemma_sum_single(s0, i as int, bal_pred(a@, d@));
                }
                let cur = self.entries[i].amount;
                if (amount as u128) <= cur {
                    let e = BalanceEntry {
                        addr: a.clone(),
                        denom: d.clone(),
                        amount: cur - (amount as u128),
                    };
                    self.entries[i] = e;
                    proof {
                        assert(self.entries@ == s0.update(i as int, e));
                        assert forall|x: AddrV, y: Seq<char>|
                            bal(self.entries@, x, y) == bal(s0, x, y) - (if x == a@ && y == d@ {
                                amount as int
                            } else {
                                0
                            }) by {
                            lemma_sum_update(s0, i as int, e, bal_pred(x, y));
                        }
                        assert forall|y: Seq<char>| #[trigger]
                            total_of(self.entries@, y) == total_of(s0, y) - (if y == d@ {
                                amount as int
                            } else {
                                0
                            }) by {
                            lemma_sum_update(s0, i as int, e, denom_pred(y));
                        }
                        assert forall|y: Seq<char>| #[trigger]
                            total_of(self.entries@, y) <= self.entries@.len() * (
                            u64::MAX as int) by {
                            assert(total_of(s0, y) <= s0.len() * (u64::MAX as int));
                        }
                    }
                    Ok(())
                } else {
                    Err(Error::InsufficientFunds)
                }
            },
        }
    }

    /// Moves `coins` from `from` to `to` atomically: either every coin is
    /// moved, or `InsufficientFunds` is returned and nothing changes.
    /// Either way, no denomination's total supply changes.
    pub fn transfer(&mut self, from: &Addr, to: &Addr, coins: &Vec<Coin>) -> (r: Result<
        (),
        Error,
    >)
        requires
            old(self).wf(),
            coins_wf(coins@),
        ensures
            final(self).wf(),
            r is Ok <==> (forall|k: int|
                0 <= k < coins@.len() ==> coins@[k].amount as int <= bal(
                    old(self)@,
                    from@,
                    coins@[k].denom@,
                )),
            r is Err ==> r == Err::<(), Error>(Error::InsufficientFunds) && final(self)@ == old(
                self,
            )@,
            r is Ok ==> forall|x: AddrV, y: Seq<char>|
                bal(final(self)@, x, y) == bal(old(self)@, x, y) + (if x == to@ {
                    coin_amt(coins@, y)
                } else {
                    0
                }) - (if x == from@ {
                    coin_amt(coins@, y)
                } else {
                    0
                }),
            forall|y: Seq<char>| total_of(final(self)@, y) == total_of(old(self)@, y),
    {
        let mut k: usize = 0;
        while k < coins.len()
            invariant
                *self == *old(self),
                self.wf(),
                k <= coins@.len(),
                forall|j: int|
                    0 <= j < k ==> coins@[j].amount as int <= bal(self@, from@, coins@[j].denom@),
            decreases coins@.len() - k,
        {
            let b = self.balance_of(from, &coins[k].denom);
            if (coins[k].amount as u128) > b {
                return Err(Error::InsufficientFunds);
            }
            k = k + 1;
        }
        let ghost l0 = self@;
        let mut k: usize = 0;
        while k < coins.len()
            invariant
                self.wf(),
                coins_wf(coins@),
                k <= coins@.len(),
                self@.len() >= l0.len(),
                forall|j: int|
                    0 <= j < coins@.len() ==> coins@[j].amount as int <= bal(
                        l0,
                        from@,
                        coins@[j].denom@,
                    ),
                forall|x: AddrV, y: Seq<char>|
                    bal(self@, x, y) == bal(l0, x, y) + (if x == to@ {
                        coin_amt(coins@.take(k as int), y)
                    } else {
                        0
                    }) - (if x == from@ {
                        coin_amt(coins@.take(k as int), y)
                    } else {
                        0
                    }),
                forall|y: Seq<char>| total_of(self@, y) == total_of(l0, y),
            decreases coins@.len() - k,
        {
            let ghost l_pre = self@;
            let c = &coins[k];
            proof {
                assert forall|i: int|
                    0 <= i < coins@.take(k as int).len() implies coins@.take(k as int)[i].denom@
                    != c.denom@ by {
                    assert(coins@.take(k as int)[i] == coins@[i]);
                    assert(coins@[i].denom@ != coins@[k as int].denom@);
                }
                lemma_coin_amt_absent(coins@.take(k as int), c.denom@);
                assert(bal(l_pre, from@, c.denom@) == bal(l0, from@, c.denom@));
            }
            let r1 = self.debit(from, &c.denom, c.amount);
            let ghost l_mid = self@;
            match r1 {
                Err(e) => {
                    proof {
                        assert(false);
                    }
                    return Err(e);
                },
                Ok(()) => {},
            }
            proof {
                assert(total_of(l_mid, c.denom@) == total_of(l_pre, c.denom@) - c.amount);
                assert(total_of(l_pre, c.denom@) <= l_pre.len() * (u64::MAX as int));
                assert(l_pre.len() * (u64::MAX as int) <= l_mid.len() * (u64::MAX as int));
            }
            self.credit(to, &c.denom, c.amount);
            proof {
                assert(coins@.take(k + 1 as int) =~= coins@.take(k as int).push(coins@[k as int]));
                assert forall|x: AddrV, y: Seq<char>|
                    bal(self@, x, y) == bal(l0, x, y) + (if x == to@ {
                        coin_amt(coins@.take(k + 1 as int), y)
                    } else {
                        0
                    }) - (if x == from@ {
                        coin_amt(coins@.take(k + 1 as int), y)
                    } else {
                        0
                    }) by {
                    lemma_coin_amt_push(coins@.take(k as int), coins@[k as int], y);
                    assert(bal(l_mid, x, y) == bal(l_pre, x, y) - (if x == from@ && y == c.denom@ {
                        c.amount as int
                    } else {
                        0
                    }));
                    assert(bal(self@, x, y) == bal(l_mid, x, y) + (if x == to@ && y == c.denom@ {
                        c.amount as int
                    } else {
                        0
                    }));
                }
            }
            k = k + 1;
        }
        proof {
            assert(coins@.take(coins@.len() as int) =~= coins@);
        }
        Ok(())
    }

    /// Seeds a fresh account with its starting balances; rows for the new
    /// address are appended and nothing else changes. Seeding is the only
    /// operation that changes a denomination's total supply.
    pub(crate) fn seed(&mut self, a: &Addr, coins: &Vec<Coin>)
        requires
            old(self).wf(),
            coins_wf(coins@),
            forall|j: int| 0 <= j < old(self)@.len() ==> old(self)@[j].addr@ != a@,
        ensures
            final(self).wf(),
            forall|x: AddrV, y: Seq<char>|
                bal(final(self)@, x, y) == bal(old(self)@, x, y) + (if x == a@ {
                    coin_amt(coins@, y)
                } else {
                    0
                }),
            forall|y: Seq<char>|
                total_of(final(self)@, y) == total_of(old(self)@, y) + coin_amt(coins@, y),
            final(self)@.len() >= old(self)@.len(),
            forall|j: int|
                0 <= j < old(self)@.len() ==> final(self)@[j].addr@ == old(self)@[j].addr@,
            forall|j: int|
                old(self)@.len() <= j < final(self)@.len() ==> final(self)@[j].addr@ == a@,
    {
        let ghost l0 = self@;
        let mut k: usize = 0;
        while k < coins.len()
            invariant
                self.wf(),
                coins_wf(coins@),
                k <= coins@.len(),
                forall|j: int| 0 <= j < l0.len() ==> l0[j].addr@ != a@,
                self@.len() >= l0.len(),
                forall|j: int| 0 <= j < l0.len() ==> self@[j].addr@ == l0[j].addr@,
                forall|j: int|
                    l0.len() <= j < self@.len() ==> self@[j].addr@ == a@ && (exists|m: int|
                        0 <= m < k && self@[j].denom@ == coins@[m].denom@),
                forall|x: AddrV, y: Seq<char>|
                    bal(self@, x, y) == bal(l0, x, y) + (if x == a@ {
                        coin_amt(coins@.take(k as int), y)
                    } else {
                        0
                    }),
                forall|y: Seq<char>|
                    total_of(self@, y) == total_of(l0, y) + coin_amt(coins@.take(k as int), y),
            decreases coins@.len() - k,
        {
            let ghost l_pre = self@;
            let c = &coins[k];
            proof {
                assert forall|j: int|
                    0 <= j < self@.len() implies !(self@[j].addr@ == a@ && self@[j].denom@
                    == c.denom@) by {
                    if j < l0.len() {
                        assert(self@[j].addr@ == l0[j].addr@);
                    } else {
                        assert(self@[j].addr@ == a@ && (exists|m: int|
                            0 <= m < k && self@[j].denom@ == coins@[m].denom@));
                        let m = choose|m: int| 0 <= m < k && self@[j].denom@ == coins@[m].denom@;
                        assert(coins@[m].denom@ != coins@[k as int].denom@);
                    }
                }
            }
            self.credit(a, &c.denom, c.amount);
            proof {
                assert(coins@.take(k + 1 as int) =~= coins@.take(k as int).push(coins@[k as int]));
                assert forall|x: AddrV, y: Seq<char>|
                    bal(self@, x, y) == bal(l0, x, y) + (if x == a@ {
                        coin_amt(coins@.take(k + 1 as int), y)
                    } else {
                        0
                    }) by {
                    lemma_coin_amt_push(coins@.take(k as int), coins@[k as int], y);
                    assert(bal(self@, x, y) == bal(l_pre, x, y) + (if x == a@ && y == c.denom@ {
                        c.amount as int
                    } else {
                        0
                    }));
                }
                assert forall|y: Seq<char>| #[trigger]
                    total_of(self@, y) == total_of(l0, y) + coin_amt(
                    coins@.take(k + 1 as int),
                    y,
                ) by {
                    lemma_coin_amt_push(coins@.take(k as int), coins@[k as int], y);
                }
            }
            k = k + 1;
        }
        proof {
            assert(coins@.take(coins@.len() as int) =~= coins@);
        }
    }
}

} // verus!

