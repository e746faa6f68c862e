use vstd::prelude::*;

use crate::codec::{le_bytes, le_decode, le_to_u64};
use crate::contract::{result_view, ContractImpl};
use crate::errors::{is_contract_error, Error};
use crate::ledger::{bal, total_of};
use crate::router::{funds_covered, is_instance_addr, App};
use crate::swap::{encode_instantiate_msg, encode_query_msg, lemma_instantiate_roundtrip,
    lemma_query_roundtrip, stored_count, stored_fee, AffiliateSwap, InstantiateMsg,
    MaxFeePercentageResponse, QueryMsg, KEY_MAX_FEE};
use crate::types::{coin_amt, coins_wf, Addr, AddrV, Coin, Decimal};

verus! {

/// The balance a builder's account list assigns to address `a` for
/// denomination `d`.
pub open spec fn builder_bal(accts: Seq<(String, Vec<Coin>)>, a: AddrV, d: Seq<char>) -> int
    decreases accts.len(),
{
    if accts.len() == 0 {
        0
    } else {
        (if a == AddrV::Named(accts[0].0@) {
            coin_amt(accts[0].1@, d)
        } else {
            0
        }) + builder_bal(accts.skip(1), a, d)
    }
}

pub proof fn lemma_builder_bal_push(
    accts: Seq<(String, Vec<Coin>)>,
    e: (String, Vec<Coin>),
    a: AddrV,
    d: Seq<char>,
)
    ensures
        builder_bal(accts.push(e), a, d) == builder_bal(accts, a, d) + (if a == AddrV::Named(
            e.0@,
        ) {
            coin_amt(e.1@, d)
        } else {
            0
        }),
    decreases accts.len(),
{
    assert(accts.push(e)[0] == if accts.len() == 0 { e } else { accts[0] });
    if accts.len() == 0 {
        assert(accts.push(e).skip(1) =~= Seq::<(String, Vec<Coin>)>::empty());
        assert(builder_bal(accts.push(e).skip(1), a, d) == 0);
    } else {
        assert(accts.push(e).skip(1) =~= accts.skip(1).push(e));
        lemma_builder_bal_push(accts.skip(1), e, a, d);
    }
}

/// The total amount of denomination `d` a builder's whole account list
/// mints at seeding time.
pub open spec fn builder_total(accts: Seq<(String, Vec<Coin>)>, d: Seq<char>) -> int
    decreases accts.len(),
{
    if accts.len() == 0 {
        0
    } else {
        coin_amt(accts[0].1@, d) + builder_total(accts.skip(1), d)
    }
}

pub proof fn lemma_builder_total_push(
    accts: Seq<(String, Vec<Coin>)>,
    e: (String, Vec<Coin>),
    d: Seq<char>,
)
    ensures
        builder_total(accts.push(e), d) == builder_total(accts, d) + coin_amt(e.1@, d),
    decreases accts.len(),
{
    assert(accts.push(e)[0] == if accts.len() == 0 { e } else { accts[0] });
    if accts.len() == 0 {
        assert(accts.push(e).skip(1) =~= Seq::<(String, Vec<Coin>)>::empty());
        assert(builder_total(accts.push(e).skip(1), d) == 0);
    } else {
        assert(accts.push(e).skip(1) =~= accts.skip(1).push(e));
        lemma_builder_total_push(accts.skip(1), e, d);
    }
}

/// The ready-to-use environment handle: the live router aggregate, the
/// creator address, the single instantiated contract's address, and the
/// name-to-address mapping of all seeded accounts.
pub struct TestEnv {
    pub app: App<AffiliateSwap>,
    pub creator: Addr,
    pub contract: Addr,
    pub accounts: Vec<(String, Addr)>,
}

impl TestEnv {
    pub open spec fn wf(self) -> bool {
        &&& self.app.wf()
        &&& self.app.spec_codes().len() >= 1
        &&& is_instance_addr(self.contract@, self.app.spec_instances().len() as int)
    }

    /// The current balance of `account`, zero for unknown accounts and
    /// denominations.
    pub fn balance_of(&self, account: &Addr, denom: &String) -> (r: u128)
        requires
            self.wf(),
        ensures
            r as int == bal(self.app.spec_ledger(), account@, denom@),
    {
        self.app.balance_of(account, denom)
    }

    /// The address a seeded account name maps to.
    pub fn account_addr(&self, name: &String) -> (r: Option<Addr>)
        ensures
            match r {
                Some(a) => exists|i: int|
                    0 <= i < self.accounts@.len() && self.accounts@[i].0@ == name@ && a@
                        == self.accounts@[i].1@,
                None => forall|i: int|
                    0 <= i < self.accounts@.len() ==> self.accounts@[i].0@ != name@,
            },
    {
        let mut i: usize = 0;
        while i < self.accounts.len()
            invariant
                i <= self.accounts@.len(),
                forall|j: int| 0 <= j < i ==> self.accounts@[j].0@ != name@,
            decreases self.accounts@.len() - i,
        {
            if self.accounts[i].0 == *name {
                return Some(self.accounts[i].1.clone());
            }
            i = i + 1;
        }
        None
    }

    /// Routes an execute envelope, with `funds`, to the environment's
    /// contract. Rollback, sufficiency and conservation are exactly those
    /// of the router.
    pub fn execute(&mut self, sender: &Addr, funds: &Vec<Coin>, envelope: &Vec<u8>) -> (r: Result<
        Vec<u8>,
        Error,
    >)
        requires
            old(self).wf(),
            coins_wf(funds@),
        ensures
            final(self).wf(),
            final(self).creator == old(self).creator,
            final(self).contract == old(self).contract,
            final(self).accounts == old(self).accounts,
            forall|y: Seq<char>|
                total_of(final(self).app.spec_ledger(), y) == total_of(
                    old(self).app.spec_ledger(),
                    y,
                ),
            (r == Err::<Vec<u8>, Error>(Error::InsufficientFunds)) <==> (exists|k: int|
                0 <= k < funds@.len() && funds@[k].amount as int > bal(
                    old(self).app.spec_ledger(),
                    sender@,
                    funds@[k].denom@,
                )),
            r is Err ==> final(self).app.spec_ledger() == old(self).app.spec_ledger() && final(self).app.spec_instances() == old(self).app.spec_instances(),
            r is Err ==> (r->Err_0 == Error::InsufficientFunds || is_contract_error(r->Err_0)),
            r is Ok ==> forall|x: AddrV, y: Seq<char>|
                bal(final(self).app.spec_ledger(), x, y) == bal(old(self).app.spec_ledger(), x, y)
                    + (if x == old(self).contract@ {
                    coin_amt(funds@, y)
                } else {
                    0
                }) - (if x == sender@ {
                    coin_amt(funds@, y)
                } else {
                    0
                }),
            ({
                let idx = old(self).contract@->Instance_0 as int;
                funds_covered(old(self).app.spec_ledger(), sender@, funds@) ==> {
                    let inst = old(self).app.spec_instances()[idx];
                    let o = old(self).app.spec_codes()[inst.code_id as int].on_execute(
                        inst.store@,
                        sender@,
                        old(self).contract@,
                        funds@,
                        envelope@,
                    );
                    &&& result_view(r) == o.result
                    &&& (r is Ok ==> final(self).app.spec_instances()[idx].store@ == o.store)
                }
            }),
    {
        self.app.execute(&self.contract, sender, funds, envelope)
    }

    /// Routes a query envelope to the environment's contract; the
    /// environment is untouched and any router error is surfaced
    /// unchanged.
    pub fn query(&self, envelope: &Vec<u8>) -> (r: Result<Vec<u8>, Error>)
        requires
            self.wf(),
        ensures
            ({
                let inst = self.app.spec_instances()[self.contract@->Instance_0 as int];
                result_view(r) == self.app.spec_codes()[inst.code_id as int].on_query(
                    inst.store@,
                    self.contract@,
                    envelope@,
                )
            }),
            r is Err ==> is_contract_error(r->Err_0),
    {
        self.app.query(&self.contract, envelope)
    }

    /// Instantiates one more instance of the environment's contract code;
    /// the fresh address never collides with an earlier one.
    pub fn instantiate(&mut self, sender: &Addr, funds: &Vec<Coin>, envelope: &Vec<u8>) -> (r:
        Result<(Addr, Vec<u8>), Error>)
        requires
            old(self).wf(),
            coins_wf(funds@),
        ensures
            final(self).wf(),
            final(self).creator == old(self).creator,
            final(self).contract == old(self).contract,
            final(self).accounts == old(self).accounts,
            forall|y: Seq<char>|
                total_of(final(self).app.spec_ledger(), y) == total_of(
                    old(self).app.spec_ledger(),
                    y,
                ),
            r is Err ==> (r->Err_0 == Error::InsufficientFunds || is_contract_error(r->Err_0)),
            r is Err ==> final(self).app.spec_ledger() == old(self).app.spec_ledger() && final(self).app.spec_instances() == old(self).app.spec_instances(),
            r is Ok ==> r->Ok_0.0@ == AddrV::Instance(
                old(self).app.spec_instances().len() as u64,
            ) && !is_instance_addr(r->Ok_0.0@, old(self).app.spec_instances().len() as int)
                && is_instance_addr(r->Ok_0.0@, final(self).app.spec_instances().len() as int),
            funds_covered(old(self).app.spec_ledger(), sender@, funds@) ==> ({
                let n = old(self).app.spec_instances().len();
                let o = old(self).app.spec_codes()[0].on_instantiate(
                    Map::empty(),
                    sender@,
                    AddrV::Instance(n as u64),
                    funds@,
                    envelope@,
                );
                &&& (r is Ok <==> o.result is Ok)
                &&& (r is Ok ==> r->Ok_0.1@ == o.result->Ok_0
                    && final(self).app.spec_instances().last().store@ == o.store)
                &&& (r is Err ==> r->Err_0 == o.result->Err_0)
            }),
    {
        let r = self.app.instantiate(0, sender, funds, envelope);
        r
    }

    /// Routes a sudo envelope to the environment's contract.
    pub fn sudo(&mut self, envelope: &Vec<u8>) -> (r: Result<Vec<u8>, Error>)
        requires
            old(self).wf(),
        ensures
            final(self).wf(),
            final(self).creator == old(self).creator,
            final(self).contract == old(self).contract,
            final(self).accounts == old(self).accounts,
            final(self).app.spec_ledger() == old(self).app.spec_ledger(),
            final(self).app.spec_instances() == old(self).app.spec_instances(),
            r == Err::<Vec<u8>, Error>(Error::Unimplemented),
    {
        let r = self.app.sudo(&self.contract, envelope);
        proof {
            let idx = old(self).contract@->Instance_0 as int;
            let inst = old(self).app.spec_instances()[idx];
            let o = old(self).app.spec_codes()[inst.code_id as int].on_sudo(
                inst.store@,
                old(self).contract@,
                envelope@,
            );
            assert(o.result == Err::<Seq<u8>, Error>(Error::Unimplemented));
            assert(result_view(r) == o.result);
            assert(r is Err && r->Err_0 == Error::Unimplemented);
        }
        r
    }

    /// Routes a reply envelope to the environment's contract.
    pub fn reply(&mut self, envelope: &Vec<u8>) -> (r: Result<Vec<u8>, Error>)
        requires
            old(self).wf(),
        ensures
            final(self).wf(),
            final(self).creator == old(self).creator,
            final(self).contract == old(self).contract,
            final(self).accounts == old(self).accounts,
            final(self).app.spec_ledger() == old(self).app.spec_ledger(),
            final(self).app.spec_instances() == old(self).app.spec_instances(),
            r == Err::<Vec<u8>, Error>(Error::Unimplemented),
    {
        let r = self.app.reply(&self.contract, envelope);
        proof {
            let idx = old(self).contract@->Instance_0 as int;
            let inst = old(self).app.spec_instances()[idx];
            let o = old(self).app.spec_codes()[inst.code_id as int].on_reply(
                inst.store@,
                old(self).contract@,
                envelope@,
            );
            assert(o.result == Err::<Seq<u8>, Error>(Error::Unimplemented));
            assert(result_view(r) == o.result);
            assert(r is Err && r->Err_0 == Error::Unimplemented);
        }
        r
    }

    /// Routes a migrate envelope to the environment's contract.
    pub fn migrate(&mut self, envelope: &Vec<u8>) -> (r: Result<Vec<u8>, Error>)
        requires
            old(self).wf(),
        ensures
            final(self).wf(),
            final(self).creator == old(self).creator,
            final(self).contract == old(self).contract,
            final(self).accounts == old(self).accounts,
            final(self).app.spec_ledger() == old(self).app.spec_ledger(),
            final(self).app.spec_instances() == old(self).app.spec_instances(),
            r == Err::<Vec<u8>, Error>(Error::Unimplemented),
    {
        let r = self.app.migrate(&self.contract, envelope);
        proof {
            let idx = old(self).contract@->Instance_0 as int;
            let inst = old(self).app.spec_instances()[idx];
            let o = old(self).app.spec_codes()[inst.code_id as int].on_migrate(
                inst.store@,
                old(self).contract@,
                envelope@,
            );
            assert(o.result == Err::<Seq<u8>, Error>(Error::Unimplemented));
            assert(result_view(r) == o.result);
            assert(r is Err && r->Err_0 == Error::Unimplemented);
        }
        r
    }

    /// Convenience accessor: reads the contract's configured maximum fee
    /// rate. The routed query itself never fails; the accessor reports
    /// `Deserialization` only if the stored fee is not an eight-byte
    /// number, which no entry point of this contract ever writes.
    pub fn query_max_fee(&self) -> (r: Result<Decimal, Error>)
        requires
            self.wf(),
        ensures
            ({
                let inst = self.app.spec_instances()[self.contract@->Instance_0 as int];
                let fee = stored_fee(inst.store@);
                &&& (fee.len() == 8 ==> r is Ok && r->Ok_0.atomics == le_decode(fee))
                &&& (fee.len() != 8 ==> r == Err::<Decimal, Error>(Error::Deserialization))
            }),
    {
        let envelope = encode_query_msg(&QueryMsg::GetMaxFeePercentage);
        proof {
            lemma_query_roundtrip(QueryMsg::GetMaxFeePercentage);
        }
        match self.app.query(&self.contract, &envelope) {
            Err(e) => {
                proof {
                    assert(false);
                }
                Err(e)
            },
            Ok(bytes) => {
                if bytes.len() == 8 {
                    let atomics = le_to_u64(&bytes, 0);
                    proof {
                        assert(bytes@.subrange(0, 8) =~= bytes@);
                    }
                    let resp = MaxFeePercentageResponse {
                        max_fee_percentage: Decimal { atomics },
                    };
                    Ok(resp.max_fee_percentage)
                } else {
                    Err(Error::Deserialization)
                }
            },
        }
    }

    /// Convenience accessor: reads how many swap attempts the contract has
    /// recorded. The call always succeeds with exactly the stored counter.
    pub fn query_swap_count(&self) -> (r: Result<u64, Error>)
        requires
            self.wf(),
        ensures
            ({
                let inst = self.app.spec_instances()[self.contract@->Instance_0 as int];
                r == Ok::<u64, Error>(stored_count(inst.store@))
            }),
    {
        let envelope = encode_query_msg(&QueryMsg::GetSwapCount);
        proof {
            lemma_query_roundtrip(QueryMsg::GetSwapCount);
        }
        match self.app.query(&self.contract, &envelope) {
            Err(e) => {
                proof {
                    assert(false);
                }
                Err(e)
            },
            Ok(bytes) => {
                proof {
                    let inst = self.app.spec_instances()[self.contract@->Instance_0 as int];
                    crate::codec::lemma_le_roundtrip(stored_count(inst.store@));
                }
                if bytes.len() == 8 {
                    let count = le_to_u64(&bytes, 0);
                    proof {
                        assert(bytes@.subrange(0, 8) =~= bytes@);
                    }
                    Ok(count)
                } else {
                    proof {
                        assert(false);
                    }
                    Err(Error::Deserialization)
                }
            },
        }
    }
}

/// A valid account list: unique names, and each balance list a set of
/// coins with unique denominations.
pub open spec fn accounts_wf(accts: Seq<(String, Vec<Coin>)>) -> bool {
    &&& forall|i: int, j: int| 0 <= i < j < accts.len() ==> accts[i].0@ != accts[j].0@
    &&& forall|i: int| 0 <= i < accts.len() ==> coins_wf(#[trigger] accts[i].1@)
}

/// The staged environment builder: accumulates named account balances and
/// the mandatory instantiate payload, then assembles the whole environment
/// in one `build` call.
pub struct TestEnvBuilder {
    account_balances: Vec<(String, Vec<Coin>)>,
    instantiate_msg: Option<InstantiateMsg>,
}

impl TestEnvBuilder {
    pub closed spec fn spec_accounts(self) -> Seq<(String, Vec<Coin>)> {
        self.account_balances@
    }

    pub closed spec fn spec_msg(self) -> Option<InstantiateMsg> {
        self.instantiate_msg
    }

    /// Builder validity: account names are unique (later writes replaced
    /// earlier ones) and every balance list is a set of coins with unique
    /// denominations.
    pub open spec fn wf(self) -> bool {
        accounts_wf(self.spec_accounts())
    }

    pub fn new() -> (b: TestEnvBuilder)
        ensures
            b.wf(),
            b.spec_accounts().len() == 0,
            b.spec_msg() is None,
    {
        TestEnvBuilder { account_balances: Vec::new(), instantiate_msg: None }
    }

    /// Sets the payload for the one instantiation `build` performs.
    pub fn with_instantiate_msg(self, msg: InstantiateMsg) -> (b: TestEnvBuilder)
        ensures
            b.spec_msg() == Some(msg),
            b.spec_accounts() == self.spec_accounts(),
            b.wf() <==> self.wf(),
    {
        TestEnvBuilder { account_balances: self.account_balances, instantiate_msg: Some(msg) }
    }

    /// Registers pre-funding for a named account. A later write for the
    /// same name replaces the earlier balance list outright: last write
    /// wins, no merge.
    pub fn with_account(self, account: &str, balance: Vec<Coin>) -> (b: TestEnvBuilder)
        requires
            self.wf(),
            coins_wf(balance@),
        ensures
            b.wf(),
            b.spec_msg() == self.spec_msg(),
            (exists|i: int|
                0 <= i < self.spec_accounts().len() && self.spec_accounts()[i].0@ == account@)
                ==> (b.spec_accounts().len() == self.spec_accounts().len() && forall|j: int|
                0 <= j < b.spec_accounts().len() ==> (b.spec_accounts()[j].0@
                    == self.spec_accounts()[j].0@ && (self.spec_accounts()[j].0@ != account@
                    ==> b.spec_accounts()[j].1 == self.spec_accounts()[j].1) && (
                self.spec_accounts()[j].0@ == account@ ==> b.spec_accounts()[j].1@ == balance@))),
            (forall|i: int|
                0 <= i < self.spec_accounts().len() ==> self.spec_accounts()[i].0@ != account@)
                ==> (b.spec_accounts().len() == self.spec_accounts().len() + 1 && (forall|j: int|
                0 <= j < self.spec_accounts().len() ==> b.spec_accounts()[j]
                    == self.spec_accounts()[j]) && b.spec_accounts().last().0@ == account@
                && b.spec_accounts().last().1@ == balance@),
    {
        let mut this = self;
        let key: String = account.to_owned();
        let mut i: usize = 0;
        while i < this.account_balances.len()
            invariant
                this == self,
                coins_wf(balance@),
                self.wf(),
                i <= this.account_balances@.len(),
                key@ == account@,
                forall|j: int| 0 <= j < i ==> this.account_balances@[j].0@ != account@,
            decreases this.account_balances@.len() - i,
        {
            if this.account_balances[i].0 == key {
                this.account_balances[i] = (key, balance);
                return this;
            }
            i = i + 1;
        }
        this.account_balances.push((key, balance));
        this
    }

    /// Assembles the environment: allocates the ledger, seeds every
    /// registered account, registers the contract implementation,
    /// instantiates it with the creator as sender and no funds, and
    /// returns the handle. Fails with `Initialization` exactly when no
    /// instantiate message was set; any entry-point failure during the
    /// instantiation aborts the whole build. On success every seeded
    /// balance is exactly as registered.
    pub fn build(self) -> (r: Result<TestEnv, Error>)
        requires
            self.wf(),
        ensures
            r is Ok <==> self.spec_msg() is Some,
            r is Err ==> r == Err::<TestEnv, Error>(Error::Initialization),
            r is Ok ==> r->Ok_0.wf(),
            r is Ok ==> r->Ok_0.app.spec_instances().len() == 1,
            r is Ok ==> r->Ok_0.app.spec_instances()[0].store@ == Map::<u64, Seq<u8>>::empty().insert(
                KEY_MAX_FEE,
                le_bytes(self.spec_msg()->Some_0.max_fee_percentage.atomics),
            ),
            r is Ok ==> r->Ok_0.creator@ == AddrV::Named("creator"@),
            r is Ok ==> r->Ok_0.contract@ == AddrV::Instance(0),
            r is Ok ==> forall|x: AddrV, d: Seq<char>|
                bal(r->Ok_0.app.spec_ledger(), x, d) == builder_bal(self.spec_accounts(), x, d),
            r is Ok ==> forall|d: Seq<char>|
                total_of(r->Ok_0.app.spec_ledger(), d) == builder_total(self.spec_accounts(), d),
            r is Ok ==> r->Ok_0.accounts@.len() == self.spec_accounts().len(),
            r is Ok ==> forall|i: int|
                0 <= i < self.spec_accounts().len() ==> (r->Ok_0.accounts@[i].0@
                    == self.spec_accounts()[i].0@ && r->Ok_0.accounts@[i].1@ == AddrV::Named(
                    self.spec_accounts()[i].0@,
                )),
    {
        let msg = match self.instantiate_msg {
            None => {
                return Err(Error::Initialization);
            },
            Some(m) => m,
        };
        let accts = self.account_balances;
        let mut app: App<AffiliateSwap> = App::new();
        let mut k: usize = 0;
        while k < accts.len()
            invariant
                app.wf(),
                !app.spec_started(),
                app.spec_codes().len() == 0,
                app.spec_instances().len() == 0,
                k <= accts@.len(),
                forall|i: int, j: int| 0 <= i < j < accts@.len() ==> accts@[i].0@ != accts@[j].0@,
                forall|i: int| 0 <= i < accts@.len() ==> coins_wf(#[trigger] accts@[i].1@),
                forall|m: int, j: int| #![trigger accts@[m].0@, app.spec_ledger()[j]]
                    k <= m < accts@.len() && 0 <= j < app.spec_ledger().len()
                        ==> app.spec_ledger()[j].addr@ != AddrV::Named(accts@[m].0@),
                forall|x: AddrV, d: Seq<char>|
                    bal(app.spec_ledger(), x, d) == builder_bal(accts@.take(k as int), x, d),
                forall|d: Seq<char>|
                    total_of(app.spec_ledger(), d) == builder_total(accts@.take(k as int), d),
            decreases accts@.len() - k,
        {
            let addr = Addr::Named(accts[k].0.clone());
            proof {
                assert forall|j: int|
                    0 <= j < app.spec_ledger().len() implies app.spec_ledger()[j].addr@
                    != addr@ by {
                    assert(app.spec_ledger()[j].addr@ != AddrV::Named(accts@[k as int].0@));
                }
            }
            let ghost app0 = app;
            let r = app.init_balance(&addr, &accts[k].1);
            match r {
                Ok(()) => {},
                Err(e) => {
                    proof {
                        assert(false);
                    }
                    return Err(e);
                },
            }
            proof {
                assert(accts@.take(k + 1 as int) =~= accts@.take(k as int).push(
                    accts@[k as int],
                ));
                assert forall|x: AddrV, d: Seq<char>|
                    bal(app.spec_ledger(), x, d) == builder_bal(
                    accts@.take(k + 1 as int),
                    x,
                    d,
                ) by {
                    lemma_builder_bal_push(accts@.take(k as int), accts@[k as int], x, d);
                    assert(bal(app.spec_ledger(), x, d) == bal(app0.spec_ledger(), x, d) + (
                    if x == addr@ {
                        coin_amt(accts@[k as int].1@, d)
                    } else {
                        0
                    }));
                }
                assert forall|d: Seq<char>| #[trigger]
                    total_of(app.spec_ledger(), d) == builder_total(
                    accts@.take(k + 1 as int),
                    d,
                ) by {
                    lemma_builder_total_push(accts@.take(k as int), accts@[k as int], d);
                    assert(total_of(app.spec_ledger(), d) == total_of(app0.spec_ledger(), d)
                        + coin_amt(accts@[k as int].1@, d));
                }
                assert forall|m: int, j: int| #![trigger accts@[m].0@, app.spec_ledger()[j]]
                    k + 1 <= m < accts@.len() && 0 <= j < app.spec_ledger().len()
                    implies app.spec_ledger()[j].addr@ != AddrV::Named(accts@[m].0@) by {
                    if j < app0.spec_ledger().len() {
                        assert(app.spec_ledger()[j].addr@ == app0.spec_ledger()[j].addr@);
                        assert(app0.spec_ledger()[j].addr@ != AddrV::Named(accts@[m].0@));
                    } else {
                        assert(app.spec_ledger()[j].addr@ == addr@);
                        assert(accts@[k as int].0@ != accts@[m].0@);
                    }
                }
            }
            k = k + 1;
        }
        proof {
            assert(accts@.take(accts@.len() as int) =~= accts@);
        }
        let creator = Addr::Named("creator".to_owned());
        let code_id = app.store_code(AffiliateSwap::new());
        let envelope = encode_instantiate_msg(&msg);
        let no_funds: Vec<Coin> = Vec::new();
        let ghost app_pre = app;
        let r2 = app.instantiate(code_id, &creator, &no_funds, &envelope);
        proof {
            lemma_instantiate_roundtrip(msg);
            assert(funds_covered(app_pre.spec_ledger(), creator@, no_funds@));
            let o = app_pre.spec_codes()[0].on_instantiate(
                Map::empty(),
                creator@,
                AddrV::Instance(0u64),
                no_funds@,
                envelope@,
            );
            assert(o.result is Ok);
            assert(r2 is Ok);
        }
        match r2 {
            Err(e) => {
                proof {
                    assert(false);
                }
                Err(e)
            },
            Ok((contract_addr, _resp)) => {
                let ghost app1 = app;
                let mut accounts: Vec<(String, Addr)> = Vec::new();
                let mut i: usize = 0;
                while i < accts.len()
                    invariant
                        i <= accts@.len(),
                        accounts@.len() == i,
                        forall|j: int|
                            0 <= j < i ==> (accounts@[j].0@ == accts@[j].0@ && accounts@[j].1@
                                == AddrV::Named(#[trigger] accts@[j].0@)),
                    decreases accts@.len() - i,
                {
                    accounts.push((accts[i].0.clone(), Addr::Named(accts[i].0.clone())));
                    i = i + 1;
                }
                proof {
                    assert forall|x: AddrV, d: Seq<char>|
                        bal(app.spec_ledger(), x, d) == builder_bal(accts@, x, d) by {
                        assert(coin_amt(no_funds@, d) == 0);
                        assert(bal(app.spec_ledger(), x, d) == bal(app1.spec_ledger(), x, d) + (
                        if x == AddrV::Instance(0u64) {
                            coin_amt(no_funds@, d)
                        } else {
                            0
                        }) - (if x == creator@ {
                            coin_amt(no_funds@, d)
                        } else {
                            0
                        }));
                    }
                }
                Ok(TestEnv { app, creator, contract: contract_addr, accounts })
            },
        }
    }
}

} // verus!



