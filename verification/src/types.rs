use vstd::prelude::*;

verus! {

/// An address naming an account or a contract instance.
///
/// Named addresses come from test code (seeded accounts, senders); instance
/// addresses are assigned by the router at instantiation time, in the order
/// the instances are created, and are stable for the environment's lifetime.
/// The two variants can never collide, so an instance address is always
/// distinct from every seeded account.
pub enum Addr {
    Named(String),
    Instance(u64),
}

/// The mathematical value of an [`Addr`].
pub ghost enum AddrV {
    Named(Seq<char>),
    Instance(u64),
}

impl View for Addr {
    type V = AddrV;

    open spec fn view(&self) -> AddrV {
        match self {
            Addr::Named(s) => AddrV::Named(s@),
            Addr::Instance(n) => AddrV::Instance(*n),
        }
    }
}

impl Clone for Addr {
    fn clone(&self) -> (res: Self)
        ensures
            res == *self,
    {
        match self {
            Addr::Named(s) => Addr::Named(s.clone()),
            Addr::Instance(n) => Addr::Instance(*n),
        }
    }
}

impl PartialEq for Addr {
    fn eq(&self, other: &Self) -> (r: bool) {
        match (self, other) {
            (Addr::Named(a), Addr::Named(b)) => *a == *b,
            (Addr::Instance(a), Addr::Instance(b)) => *a == *b,
            _ => false,
        }
    }
}

impl vstd::std_specs::cmp::PartialEqSpecImpl for Addr {
    open spec fn obeys_eq_spec() -> bool {
        true
    }

    open spec fn eq_spec(&self, other: &Self) -> bool {
        self@ == other@
    }
}

/// A quantity of one denomination of fungible value.
pub struct Coin {
    pub denom: String,
    pub amount: u64,
}

impl Clone for Coin {
    fn clone(&self) -> (res: Self)
        ensures
            res == *self,
    {
        Coin { denom: self.denom.clone(), amount: self.amount }
    }
}

/// A fixed-point decimal with eighteen fractional digits, mirroring the
/// convention of ledger runtimes: the represented value is
/// `atomics / 10^18`, so `0.05` is fifty quadrillion atomics.
#[derive(Clone, Copy, Debug, PartialEq, Eq, Structural)]
pub struct Decimal {
    pub atomics: u64,
}

/// The amount of denomination `d` carried by the coin list `s` (the sum, if
/// a denomination repeats).
pub open spec fn coin_amt(s: Seq<Coin>, d: Seq<char>) -> int
    decreases s.len(),
{
    if s.len() == 0 {
        0
    } else {
        (if s[0].denom@ == d {
            s[0].amount as int
        } else {
            0
        }) + coin_amt(s.skip(1), d)
    }
}

/// A well-formed coin list: a set of coins with unique denominations.
pub open spec fn coins_wf(s: Seq<Coin>) -> bool {
    forall|i: int, j: int| 0 <= i < j < s.len() ==> s[i].denom@ != s[j].denom@
}

pub proof fn lemma_coin_amt_push(s: Seq<Coin>, c: Coin, d: Seq<char>)
    ensures
        coin_amt(s.push(c), d) == coin_amt(s, d) + (if c.denom@ == d {
            c.amount as int
        } else {
            0
        }),
    decreases s.len(),
{
    assert(s.push(c)[0] == if s.len() == 0 { c } else { s[0] });
    if s.len() == 0 {
        assert(s.push(c).skip(1) =~= Seq::<Coin>::empty());
        assert(coin_amt(s.push(c).skip(1), d) == 0);
    } else {
        assert(s.push(c).skip(1) =~= s.skip(1).push(c));
        lemma_coin_amt_push(s.skip(1), c, d);
    }
}

/// A denomination that occurs nowhere in the list contributes nothing.
pub proof fn lemma_coin_amt_absent(s: Seq<Coin>, d: Seq<char>)
    requires
        forall|i: int| 0 <= i < s.len() ==> s[i].denom@ != d,
    ensures
        coin_amt(s, d) == 0,
    decreases s.len(),
{
    if s.len() > 0 {
        lemma_coin_amt_absent(s.skip(1), d);
    }
}

/// A deep copy of a coin list, equal element for element.
pub fn clone_coins(v: &Vec<Coin>) -> (r: Vec<Coin>)
    ensures
        r@ == v@,
{
    let mut r: Vec<Coin> = Vec::new();
    let mut i: usize = 0;
    while i < v.len()
        invariant
            i <= v.len(),
            r@ == v@.take(i as int),
        decreases v.len() - i,
    {
        r.push(v[i].clone());
        proof {
            assert(v@.take(i + 1 as int) =~= v@.take(i as int).push(v@[i as int]));
        }
        i = i + 1;
    }
    proof {
        assert(v@.take(v@.len() as int) =~= v@);
    }
    r
}

} // verus!
