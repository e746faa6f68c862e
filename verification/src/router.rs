use vstd::prelude::*;

use crate::contract::{result_view, ContractImpl, Ctx};
use crate::errors::{is_contract_error, Error};
use crate::ledger::{bal, total_of, BalanceEntry, Ledger};
use crate::store::Store;
use crate::types::{clone_coins, coin_amt, coins_wf, Addr, AddrV, Coin};

verus! {

/// A live deployment of a registered code identifier, with its own
/// isolated persistent store. The instance with index `i` answers to the
/// address `Addr::Instance(i)`; instances are never destroyed.
pub struct Instance {
    pub code_id: u64,
    pub store: Store,
}

/// Whether `a` names one of the first `n` instances.
pub open spec fn is_instance_addr(a: AddrV, n: int) -> bool {
    &&& a is Instance
    &&& (a->Instance_0 as int) < n
}

/// The sufficiency condition of a funds transfer: every requested coin is
/// covered by the sender's balance.
pub open spec fn funds_covered(l: Seq<BalanceEntry>, sender: AddrV, coins: Seq<Coin>) -> bool {
    forall|k: int| 0 <= k < coins.len() ==> coins[k].amount as int <= bal(l, sender, coins[k].denom@)
}

/// The environment aggregate: account ledger, code registry, instance
/// directory and the message router over them. Each dispatch operation
/// commits its ledger and store changes only when the invoked entry point
/// succeeds; on any entry-point failure both are restored, so a failed
/// call leaves no residue.
pub struct App<C> {
    ledger: Ledger,
    codes: Vec<C>,
    instances: Vec<Instance>,
    started: bool,
}

impl<C: ContractImpl> App<C> {
    pub closed spec fn spec_ledger(self) -> Seq<BalanceEntry> {
        self.ledger@
    }

    pub closed spec fn spec_codes(self) -> Seq<C> {
        self.codes@
    }

    pub closed spec fn spec_instances(self) -> Seq<Instance> {
        self.instances@
    }

    /// Whether the environment has begun processing messages; seeding is
    /// refused from then on.
    pub closed spec fn spec_started(self) -> bool {
        self.started
    }

    pub closed spec fn wf(self) -> bool {
        &&& self.ledger.wf()
        &&& forall|i: int|
            0 <= i < self.instances@.len() ==> (self.instances@[i].code_id as int)
                < self.codes@.len()
    }

    pub fn new() -> (a: App<C>)
        ensures
            a.wf(),
            a.spec_ledger().len() == 0,
            a.spec_codes().len() == 0,
            a.spec_instances().len() == 0,
            !a.spec_started(),
    {
        App { ledger: Ledger::new(), codes: Vec::new(), instances: Vec::new(), started: false }
    }

    /// A pure read of the current balance; zero for unknown accounts and
    /// denominations.
    pub fn balance_of(&self, account: &Addr, denom: &String) -> (r: u128)
        requires
            self.wf(),
        ensures
            r as int == bal(self.spec_ledger(), account@, denom@),
    {
        self.ledger.balance_of(account, denom)
    }

    /// Registers a contract implementation and returns a fresh,
    /// previously-unused code identifier; the ledger is untouched.
    pub fn store_code(&mut self, code: C) -> (id: u64)
        requires
            old(self).wf(),
            old(self).spec_codes().len() < u64::MAX,
        ensures
            final(self).wf(),
            id as int == old(self).spec_codes().len(),
            final(self).spec_codes() == old(self).spec_codes().push(code),
            final(self).spec_ledger() == old(self).spec_ledger(),
            final(self).spec_instances() == old(self).spec_instances(),
            final(self).spec_started() == old(self).spec_started(),
    {
        let id = self.codes.len() as u64;
        self.codes.push(code);
        id
    }

    /// Seeds an account's starting balances. Seeding is a one-time,
    /// pre-dispatch phase: the call fails with `Initialization` when the
    /// environment has already begun processing messages, and equally when
    /// the account was seeded before — each account is seeded exactly
    /// once. (The builder keeps only the last balance list registered for
    /// a name, so later writes win at that level.)
    pub fn init_balance(&mut self, account: &Addr, coins: &Vec<Coin>) -> (r: Result<(), Error>)
        requires
            old(self).wf(),
            coins_wf(coins@),
        ensures
            final(self).wf(),
            final(self).spec_codes() == old(self).spec_codes(),
            final(self).spec_instances() == old(self).spec_instances(),
            final(self).spec_started() == old(self).spec_started(),
            r is Ok <==> (!old(self).spec_started() && forall|j: int|
                0 <= j < old(self).spec_ledger().len() ==> old(self).spec_ledger()[j].addr@
                    != account@),
            r is Err ==> r == Err::<(), Error>(Error::Initialization) && final(self).spec_ledger()
                == old(self).spec_ledger(),
            r is Ok ==> forall|x: AddrV, y: Seq<char>|
                bal(final(self).spec_ledger(), x, y) == bal(old(self).spec_ledger(), x, y) + (
                if x == account@ {
                    coin_amt(coins@, y)
                } else {
                    0
                }),
            r is Ok ==> forall|y: Seq<char>|
                total_of(final(self).spec_ledger(), y) == total_of(old(self).spec_ledger(), y)
                    + coin_amt(coins@, y),
            final(self).spec_ledger().len() >= old(self).spec_ledger().len(),
            forall|j: int|
                0 <= j < old(self).spec_ledger().len() ==> final(self).spec_ledger()[j].addr@
                    == old(self).spec_ledger()[j].addr@,
            forall|j: int|
                old(self).spec_ledger().len() <= j < final(self).spec_ledger().len() ==> final(self).spec_ledger()[j].addr@ == account@,
    {
        if self.started {
            return Err(Error::Initialization);
        }
        if self.ledger.has_rows(account) {
            return Err(Error::Initialization);
        }
        self.ledger.seed(account, coins);
        Ok(())
    }

    /// Creates a new instance of `code_id`: allocates the next instance
    /// address, transfers `funds` from `sender` to it, and invokes the
    /// implementation's `instantiate` entry point on a fresh store. The
    /// whole operation is all-or-nothing: on entry-point failure the
    /// transfer is rolled back and no instance is recorded. The returned
    /// address is always previously unassigned, and no denomination's
    /// total supply changes.
    pub fn instantiate(&mut self, code_id: u64, sender: &Addr, funds: &Vec<Coin>, msg: &Vec<u8>)
        -> (r: Result<(Addr, Vec<u8>), Error>)
        requires
            old(self).wf(),
            coins_wf(funds@),
        ensures
            final(self).wf(),
            final(self).spec_started(),
            final(self).spec_codes() == old(self).spec_codes(),
            forall|y: Seq<char>|
                total_of(final(self).spec_ledger(), y) == total_of(old(self).spec_ledger(), y),
            (r == Err::<(Addr, Vec<u8>), Error>(Error::UnknownCode)) <==> (code_id as int) >= old(
                self,
            ).spec_codes().len(),
            (code_id as int) < old(self).spec_codes().len() ==> ((r == Err::<(Addr, Vec<u8>), Error>(
                Error::InsufficientFunds,
            )) <==> !funds_covered(old(self).spec_ledger(), sender@, funds@)),
            r is Err ==> final(self).spec_ledger() == old(self).spec_ledger() && final(self).spec_instances() == old(self).spec_instances(),
            r is Err ==> (r->Err_0 == Error::UnknownCode || r->Err_0 == Error::InsufficientFunds
                || is_contract_error(r->Err_0)),
            r is Ok ==> r->Ok_0.0@ == AddrV::Instance(old(self).spec_instances().len() as u64)
                && !is_instance_addr(r->Ok_0.0@, old(self).spec_instances().len() as int)
                && is_instance_addr(r->Ok_0.0@, final(self).spec_instances().len() as int),
            r is Ok ==> final(self).spec_instances().len() == old(self).spec_instances().len() + 1
                && final(self).spec_instances().last().code_id == code_id,
            forall|i: int|
                0 <= i < old(self).spec_instances().len() ==> final(self).spec_instances()[i]
                    == old(self).spec_instances()[i],
            r is Ok ==> forall|x: AddrV, y: Seq<char>|
                bal(final(self).spec_ledger(), x, y) == bal(old(self).spec_ledger(), x, y) + (
                if x == AddrV::Instance(old(self).spec_instances().len() as u64) {
                    coin_amt(funds@, y)
                } else {
                    0
                }) - (if x == sender@ {
                    coin_amt(funds@, y)
                } else {
                    0
                }),
            ({
                let n = old(self).spec_instances().len();
                ((code_id as int) < old(self).spec_codes().len() && funds_covered(
                    old(self).spec_ledger(),
                    sender@,
                    funds@,
                )) ==> {
                    let o = old(self).spec_codes()[code_id as int].on_instantiate(
                        Map::empty(),
                        sender@,
                        AddrV::Instance(n as u64),
                        funds@,
                        msg@,
                    );
                    &&& (r is Ok <==> o.result is Ok)
                    &&& (r is Ok ==> r->Ok_0.1@ == o.result->Ok_0
                        && final(self).spec_instances().last().store@ == o.store)
                    &&& (r is Err ==> r->Err_0 == o.result->Err_0)
                }
            }),
    {
        self.started = true;
        if code_id >= self.codes.len() as u64 {
            return Err(Error::UnknownCode);
        }
        let new_addr = Addr::Instance(self.instances.len() as u64);
        let snap = self.ledger.snapshot();
        match self.ledger.transfer(sender, &new_addr, funds) {
            Err(e) => {
                return Err(e);
            },
            Ok(()) => {},
        }
        let mut store = Store::new();
        let ctx = Ctx {
            contract: new_addr.clone(),
            sender: sender.clone(),
            funds: clone_coins(funds),
        };
        let res = self.codes[code_id as usize].instantiate(&mut store, &ctx, msg);
        proof {
            vstd::std_specs::vec::axiom_spec_len(&self.codes);
            assert((code_id as usize) as int == code_id as int);
            assert(ctx.sender@ == sender@);
            assert(ctx.contract@ == new_addr@);
            assert(ctx.funds@ == funds@);
            assert(self.codes@[code_id as int] == old(self).spec_codes()[code_id as int]);
        }
        match res {
            Err(e) => {
                self.ledger = snap;
                Err(e)
            },
            Ok(resp) => {
                self.instances.push(Instance { code_id, store });
                Ok((new_addr, resp))
            },
        }
    }

    /// Routes an execute envelope to the instance at `contract`: transfers
    /// the attached funds from `sender`, then invokes the implementation's
    /// `execute` entry point on the instance's store. On entry-point
    /// failure both the transfer and the store are rolled back; on any
    /// failure the caller observes the pre-call state. No denomination's
    /// total supply changes.
    pub fn execute(&mut self, contract: &Addr, sender: &Addr, funds: &Vec<Coin>, msg: &Vec<u8>)
        -> (r: Result<Vec<u8>, Error>)
        requires
            old(self).wf(),
            coins_wf(funds@),
        ensures
            final(self).wf(),
            final(self).spec_started(),
            final(self).spec_codes() == old(self).spec_codes(),
            final(self).spec_instances().len() == old(self).spec_instances().len(),
            forall|y: Seq<char>|
                total_of(final(self).spec_ledger(), y) == total_of(old(self).spec_ledger(), y),
            (r == Err::<Vec<u8>, Error>(Error::NoSuchContract)) <==> !is_instance_addr(
                contract@,
                old(self).spec_instances().len() as int,
            ),
            is_instance_addr(contract@, old(self).spec_instances().len() as int) ==> ((r
                == Err::<Vec<u8>, Error>(Error::InsufficientFunds)) <==> !funds_covered(
                old(self).spec_ledger(),
                sender@,
                funds@,
            )),
            r is Err ==> final(self).spec_ledger() == old(self).spec_ledger() && final(self).spec_instances() == old(self).spec_instances(),
            r is Err ==> (r->Err_0 == Error::NoSuchContract || r->Err_0
                == Error::InsufficientFunds || is_contract_error(r->Err_0)),
            forall|i: int|
                0 <= i < old(self).spec_instances().len() && i != contract@->Instance_0 as int
                    ==> final(self).spec_instances()[i] == old(self).spec_instances()[i],
            r is Ok ==> final(self).spec_instances()[contract@->Instance_0 as int].code_id == old(
                self,
            ).spec_instances()[contract@->Instance_0 as int].code_id,
            r is Ok ==> forall|x: AddrV, y: Seq<char>|
                bal(final(self).spec_ledger(), x, y) == bal(old(self).spec_ledger(), x, y) + (
                if x == contract@ {
                    coin_amt(funds@, y)
                } else {
                    0
                }) - (if x == sender@ {
                    coin_amt(funds@, y)
                } else {
                    0
                }),
            ({
                let n = old(self).spec_instances().len();
                (is_instance_addr(contract@, n as int) && funds_covered(
                    old(self).spec_ledger(),
                    sender@,
                    funds@,
                )) ==> {
                    let idx = contract@->Instance_0 as int;
                    let inst = old(self).spec_instances()[idx];
                    let o = old(self).spec_codes()[inst.code_id as int].on_execute(
                        inst.store@,
                        sender@,
                        contract@,
                        funds@,
                        msg@,
                    );
                    &&& result_view(r) == o.result
                    &&& (r is Ok ==> final(self).spec_instances()[idx].store@ == o.store)
                }
            }),
    {
        self.started = true;
        let idx: usize = match contract {
            Addr::Instance(n) => {
                if *n < self.instances.len() as u64 {
                    *n as usize
                } else {
                    return Err(Error::NoSuchContract);
                }
            },
            Addr::Named(_) => {
                return Err(Error::NoSuchContract);
            },
        };
        let snap = self.ledger.snapshot();
        match self.ledger.transfer(sender, contract, funds) {
            Err(e) => {
                return Err(e);
            },
            Ok(()) => {},
        }
        let cid = self.instances[idx].code_id;
        let mut store = self.instances[idx].store.snapshot();
        let ctx = Ctx {
            contract: contract.clone(),
            sender: sender.clone(),
            funds: clone_coins(funds),
        };
        let res = self.codes[cid as usize].execute(&mut store, &ctx, msg);
        proof {
            vstd::std_specs::vec::axiom_spec_len(&self.codes);
            assert((cid as usize) as int == cid as int);
            assert(ctx.sender@ == sender@);
            assert(ctx.contract@ == contract@);
            assert(ctx.funds@ == funds@);
            assert(self.codes@[cid as int] == old(self).spec_codes()[cid as int]);
            assert(old(self).spec_instances()[contract@->Instance_0 as int].code_id == cid);
        }
        match res {
            Err(e) => {
                self.ledger = snap;
                Err(e)
            },
            Ok(resp) => {
                self.instances[idx] = Instance { code_id: cid, store };
                Ok(resp)
            },
        }
    }

    /// Routes a query envelope to the instance at `contract`, granting the
    /// entry point only an immutable view of the store: no contract
    /// implementation can mutate ledger or store state from a query, and
    /// the receiver is shared, so the whole environment is untouched.
    pub fn query(&self, contract: &Addr, msg: &Vec<u8>) -> (r: Result<Vec<u8>, Error>)
        requires
            self.wf(),
        ensures
            (r == Err::<Vec<u8>, Error>(Error::NoSuchContract)) <==> !is_instance_addr(
                contract@,
                self.spec_instances().len() as int,
            ),
            r is Err ==> (r->Err_0 == Error::NoSuchContract || is_contract_error(r->Err_0)),
            is_instance_addr(contract@, self.spec_instances().len() as int) ==> ({
                let idx = contract@->Instance_0 as int;
                let inst = self.spec_instances()[idx];
                result_view(r) == self.spec_codes()[inst.code_id as int].on_query(
                    inst.store@,
                    contract@,
                    msg@,
                )
            }),
    {
        let idx: usize = match contract {
            Addr::Instance(n) => {
                if *n < self.instances.len() as u64 {
                    *n as usize
                } else {
                    return Err(Error::NoSuchContract);
                }
            },
            Addr::Named(_) => {
                return Err(Error::NoSuchContract);
            },
        };
        let inst = &self.instances[idx];
        proof {
            assert(*inst == self.spec_instances()[idx as int]);
            assert((inst.code_id as int) < self.codes@.len());
        }
        let code = &self.codes[inst.code_id as usize];
        let r = code.query(&inst.store, contract, msg);
        proof {
            vstd::std_specs::vec::axiom_spec_len(&self.codes);
            assert(idx as int == contract@->Instance_0 as int);
            assert((inst.code_id as usize) as int == inst.code_id as int);
            assert(*code == self.spec_codes()[inst.code_id as int]);
            assert(result_view(r) == code.on_query(inst.store@, contract@, msg@));
        }
        r
    }

    /// Routes a sudo envelope: like `execute`, but privileged and with no
    /// attached funds, so the ledger is never touched. The store is rolled
    /// back if the entry point fails, and a contract may decline the call
    /// with `Unimplemented`.
    pub fn sudo(&mut self, contract: &Addr, msg: &Vec<u8>) -> (r: Result<Vec<u8>, Error>)
        requires
            old(self).wf(),
        ensures
            final(self).wf(),
            final(self).spec_started(),
            final(self).spec_codes() == old(self).spec_codes(),
            final(self).spec_ledger() == old(self).spec_ledger(),
            final(self).spec_instances().len() == old(self).spec_instances().len(),
            (r == Err::<Vec<u8>, Error>(Error::NoSuchContract)) <==> !is_instance_addr(
                contract@,
                old(self).spec_instances().len() as int,
            ),
            r is Err ==> final(self).spec_instances() == old(self).spec_instances(),
            r is Err ==> (r->Err_0 == Error::NoSuchContract || is_contract_error(r->Err_0)),
            forall|i: int|
                0 <= i < old(self).spec_instances().len() && i != contract@->Instance_0 as int
                    ==> final(self).spec_instances()[i] == old(self).spec_instances()[i],
            r is Ok ==> final(self).spec_instances()[contract@->Instance_0 as int].code_id == old(
                self,
            ).spec_instances()[contract@->Instance_0 as int].code_id,
            ({
                let n = old(self).spec_instances().len();
                is_instance_addr(contract@, n as int) ==> {
                    let idx = contract@->Instance_0 as int;
                    let inst = old(self).spec_instances()[idx];
                    let o = old(self).spec_codes()[inst.code_id as int].on_sudo(
                        inst.store@,
                        contract@,
                        msg@,
                    );
                    &&& result_view(r) == o.result
                    &&& (r is Ok ==> final(self).spec_instances()[idx].store@ == o.store)
                }
            }),
    {
        self.started = true;
        let idx: usize = match contract {
            Addr::Instance(n) => {
                if *n < self.instances.len() as u64 {
                    *n as usize
                } else {
                    return Err(Error::NoSuchContract);
                }
            },
            Addr::Named(_) => {
                return Err(Error::NoSuchContract);
            },
        };
        let cid = self.instances[idx].code_id;
        let mut store = self.instances[idx].store.snapshot();
        let res = self.codes[cid as usize].sudo(&mut store, contract, msg);
        proof {
            vstd::std_specs::vec::axiom_spec_len(&self.codes);
            assert((cid as usize) as int == cid as int);
            assert(self.codes@[cid as int] == old(self).spec_codes()[cid as int]);
            assert(old(self).spec_instances()[contract@->Instance_0 as int].code_id == cid);
        }
        match res {
            Err(e) => Err(e),
            Ok(resp) => {
                self.instances[idx] = Instance { code_id: cid, store };
                Ok(resp)
            },
        }
    }

    /// Routes a reply callback envelope; same discipline as `sudo`.
    pub fn reply(&mut self, contract: &Addr, msg: &Vec<u8>) -> (r: Result<Vec<u8>, Error>)
        requires
            old(self).wf(),
        ensures
            final(self).wf(),
            final(self).spec_started(),
            final(self).spec_codes() == old(self).spec_codes(),
            final(self).spec_ledger() == old(self).spec_ledger(),
            final(self).spec_instances().len() == old(self).spec_instances().len(),
            (r == Err::<Vec<u8>, Error>(Error::NoSuchContract)) <==> !is_instance_addr(
                contract@,
                old(self).spec_instances().len() as int,
            ),
            r is Err ==> final(self).spec_instances() == old(self).spec_instances(),
            r is Err ==> (r->Err_0 == Error::NoSuchContract || is_contract_error(r->Err_0)),
            forall|i: int|
                0 <= i < old(self).spec_instances().len() && i != contract@->Instance_0 as int
                    ==> final(self).spec_instances()[i] == old(self).spec_instances()[i],
            r is Ok ==> final(self).spec_instances()[contract@->Instance_0 as int].code_id == old(
                self,
            ).spec_instances()[contract@->Instance_0 as int].code_id,
            ({
                let n = old(self).spec_instances().len();
                is_instance_addr(contract@, n as int) ==> {
                    let idx = contract@->Instance_0 as int;
                    let inst = old(self).spec_instances()[idx];
                    let o = old(self).spec_codes()[inst.code_id as int].on_reply(
                        inst.store@,
                        contract@,
                        msg@,
                    );
                    &&& result_view(r) == o.result
                    &&& (r is Ok ==> final(self).spec_instances()[idx].store@ == o.store)
                }
            }),
    {
        self.started = true;
        let idx: usize = match contract {
            Addr::Instance(n) => {
                if *n < self.instances.len() as u64 {
                    *n as usize
                } else {
                    return Err(Error::NoSuchContract);
                }
            },
            Addr::Named(_) => {
                return Err(Error::NoSuchContract);
            },
        };
        let cid = self.instances[idx].code_id;
        let mut store = self.instances[idx].store.snapshot();
        let res = self.codes[cid as usize].reply(&mut store, contract, msg);
        proof {
            vstd::std_specs::vec::axiom_spec_len(&self.codes);
            assert((cid as usize) as int == cid as int);
            assert(self.codes@[cid as int] == old(self).spec_codes()[cid as int]);
            assert(old(self).spec_instances()[contract@->Instance_0 as int].code_id == cid);
        }
        match res {
            Err(e) => Err(e),
            Ok(resp) => {
                self.instances[idx] = Instance { code_id: cid, store };
                Ok(resp)
            },
        }
    }

    /// Routes a migrate envelope; same discipline as `sudo`.
    pub fn migrate(&mut self, contract: &Addr, msg: &Vec<u8>) -> (r: Result<Vec<u8>, Error>)
        requires
            old(self).wf(),
        ensures
            final(self).wf(),
            final(self).spec_started(),
            final(self).spec_codes() == old(self).spec_codes(),
            final(self).spec_ledger() == old(self).spec_ledger(),
            final(self).spec_instances().len() == old(self).spec_instances().len(),
            (r == Err::<Vec<u8>, Error>(Error::NoSuchContract)) <==> !is_instance_addr(
                contract@,
                old(self).spec_instances().len() as int,
            ),
            r is Err ==> final(self).spec_instances() == old(self).spec_instances(),
            r is Err ==> (r->Err_0 == Error::NoSuchContract || is_contract_error(r->Err_0)),
            forall|i: int|
                0 <= i < old(self).spec_instances().len() && i != contract@->Instance_0 as int
                    ==> final(self).spec_instances()[i] == old(self).spec_instances()[i],
            r is Ok ==> final(self).spec_instances()[contract@->Instance_0 as int].code_id == old(
                self,
            ).spec_instances()[contract@->Instance_0 as int].code_id,
            ({
                let n = old(self).spec_instances().len();
                is_instance_addr(contract@, n as int) ==> {
                    let idx = contract@->Instance_0 as int;
                    let inst = old(self).spec_instances()[idx];
                    let o = old(self).spec_codes()[inst.code_id as int].on_migrate(
                        inst.store@,
                        contract@,
                        msg@,
                    );
                    &&& result_view(r) == o.result
                    &&& (r is Ok ==> final(self).spec_instances()[idx].store@ == o.store)
                }
            }),
    {
        self.started = true;
        let idx: usize = match contract {
            Addr::Instance(n) => {
                if *n < self.instances.len() as u64 {
                    *n as usize
                } else {
                    return Err(Error::NoSuchContract);
                }
            },
            Addr::Named(_) => {
                return Err(Error::NoSuchContract);
            },
        };
        let cid = self.instances[idx].code_id;
        let mut store = self.instances[idx].store.snapshot();
        let res = self.codes[cid as usize].migrate(&mut store, contract, msg);
        proof {
            vstd::std_specs::vec::axiom_spec_len(&self.codes);
            assert((cid as usize) as int == cid as int);
            assert(self.codes@[cid as int] == old(self).spec_codes()[cid as int]);
            assert(old(self).spec_instances()[contract@->Instance_0 as int].code_id == cid);
        }
        match res {
            Err(e) => Err(e),
            Ok(resp) => {
                self.instances[idx] = Instance { code_id: cid, store };
                Ok(resp)
            },
        }
    }
}

} // verus!
