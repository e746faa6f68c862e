use vstd::prelude::*;

use crate::errors::{is_contract_error, Error};
use crate::store::Store;
use crate::types::{Addr, AddrV, Coin};

verus! {

/// The execution context handed to the fund-carrying entry points: the
/// instance's own address, the caller, and the funds the call attached
/// (already transferred to the instance by the router when the entry point
/// runs).
pub struct Ctx {
    pub contract: Addr,
    pub sender: Addr,
    pub funds: Vec<Coin>,
}

/// What one state-changing entry point did, stated abstractly: the store
/// it leaves behind and the result it returns.
pub ghost struct Outcome {
    pub store: Map<u64, Seq<u8>>,
    pub result: Result<Seq<u8>, Error>,
}

/// An entry point's executable result, lifted to the level its
/// specification speaks at.
pub open spec fn result_view(r: Result<Vec<u8>, Error>) -> Result<Seq<u8>, Error> {
    match r {
        Ok(v) => Ok(v@),
        Err(e) => Err(e),
    }
}

/// The six-entry-point lifecycle capability a contract implementation must
/// provide to be routable.
///
/// Entry points receive an opaque envelope and deserialize it themselves,
/// so the router never knows any contract's message shapes. Each
/// implementation *does* say, through the six specification functions,
/// exactly what each entry point leaves in the store and returns; the
/// router carries those outcomes through to its callers, so nothing of a
/// concrete contract's behaviour is lost at the dispatch boundary. Every
/// entry point may fail; an implementation that does not support `sudo`,
/// `reply` or `migrate` declines them with `Unimplemented` — that is a
/// per-contract choice, not a rule of the harness. Failures are restricted
/// to the contract-level errors (`Deserialization`, `Unimplemented`,
/// `Business`), so a router-level error always has its router-level
/// meaning. `query` receives the store read-only: a contract cannot mutate
/// state from a query even if it tries.
pub trait ContractImpl: Sized {
    /// The store and result `instantiate` produces from a starting store,
    /// the caller, the instance's address, the attached funds and the
    /// envelope.
    spec fn on_instantiate(
        &self,
        store: Map<u64, Seq<u8>>,
        sender: AddrV,
        contract: AddrV,
        funds: Seq<Coin>,
        msg: Seq<u8>,
    ) -> Outcome;

    /// The store and result `execute` produces.
    spec fn on_execute(
        &self,
        store: Map<u64, Seq<u8>>,
        sender: AddrV,
        contract: AddrV,
        funds: Seq<Coin>,
        msg: Seq<u8>,
    ) -> Outcome;

    /// The result `query` returns; it has no store to leave.
    spec fn on_query(&self, store: Map<u64, Seq<u8>>, contract: AddrV, msg: Seq<u8>) -> Result<
        Seq<u8>,
        Error,
    >;

    /// The store and result `sudo` produces.
    spec fn on_sudo(&self, store: Map<u64, Seq<u8>>, contract: AddrV, msg: Seq<u8>) -> Outcome;

    /// The store and result `reply` produces.
    spec fn on_reply(&self, store: Map<u64, Seq<u8>>, contract: AddrV, msg: Seq<u8>) -> Outcome;

    /// The store and result `migrate` produces.
    spec fn on_migrate(&self, store: Map<u64, Seq<u8>>, contract: AddrV, msg: Seq<u8>) -> Outcome;

    fn instantiate(&self, store: &mut Store, ctx: &Ctx, msg: &Vec<u8>) -> (r: Result<
        Vec<u8>,
        Error,
    >)
        ensures
            r is Err ==> is_contract_error(r->Err_0),
            ({
                let o = self.on_instantiate(
                    old(store)@,
                    ctx.sender@,
                    ctx.contract@,
                    ctx.funds@,
                    msg@,
                );
                final(store)@ == o.store && result_view(r) == o.result
            }),
    ;

    fn execute(&self, store: &mut Store, ctx: &Ctx, msg: &Vec<u8>) -> (r: Result<Vec<u8>, Error>)
        ensures
            r is Err ==> is_contract_error(r->Err_0),
            ({
                let o = self.on_execute(old(store)@, ctx.sender@, ctx.contract@, ctx.funds@, msg@);
                final(store)@ == o.store && result_view(r) == o.result
            }),
    ;

    fn query(&self, store: &Store, contract: &Addr, msg: &Vec<u8>) -> (r: Result<Vec<u8>, Error>)
        ensures
            r is Err ==> is_contract_error(r->Err_0),
            result_view(r) == self.on_query(store@, contract@, msg@),
    ;

    fn sudo(&self, store: &mut Store, contract: &Addr, msg: &Vec<u8>) -> (r: Result<
        Vec<u8>,
        Error,
    >)
        ensures
            r is Err ==> is_contract_error(r->Err_0),
            ({
                let o = self.on_sudo(old(store)@, contract@, msg@);
                final(store)@ == o.store && result_view(r) == o.result
            }),
    ;

    fn reply(&self, store: &mut Store, contract: &Addr, msg: &Vec<u8>) -> (r: Result<
        Vec<u8>,
        Error,
    >)
        ensures
            r is Err ==> is_contract_error(r->Err_0),
            ({
                let o = self.on_reply(old(store)@, contract@, msg@);
                final(store)@ == o.store && result_view(r) == o.result
            }),
    ;

    fn migrate(&self, store: &mut Store, contract: &Addr, msg: &Vec<u8>) -> (r: Result<
        Vec<u8>,
        Error,
    >)
        ensures
            r is Err ==> is_contract_error(r->Err_0),
            ({
                let o = self.on_migrate(old(store)@, contract@, msg@);
                final(store)@ == o.store && result_view(r) == o.result
            }),
    ;
}

} // verus!
