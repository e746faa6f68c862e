use vstd::prelude::*;

verus! {

/// The error taxonomy of the harness.
///
/// `InsufficientFunds`, `UnknownCode`, `NoSuchContract` and `Initialization`
/// are produced by the router and the ledger; `Deserialization`,
/// `Unimplemented` and `Business` are produced by contract entry points and
/// are propagated by the router unchanged, after rolling back any state the
/// failed call touched.
#[derive(Clone, Copy, Debug, PartialEq, Eq, Structural)]
pub enum Error {
    /// A transfer asked for more of a denomination than the sender holds.
    InsufficientFunds,
    /// A code identifier that was never returned by `store_code`.
    UnknownCode,
    /// An address that names no instantiated contract.
    NoSuchContract,
    /// A message envelope whose shape the target entry point does not accept.
    Deserialization,
    /// An entry point the targeted contract deliberately declines.
    Unimplemented,
    /// Seeding attempted after the environment began processing messages,
    /// or an environment built without the mandatory instantiate message.
    Initialization,
    /// An entry-point-specific business failure, treated opaquely by the
    /// router.
    Business,
}

/// The errors a contract entry point is allowed to return; the router's own
/// addressing and funding errors are reserved to the router, so that a
/// router result of `UnknownCode`, `NoSuchContract`, `InsufficientFunds` or
/// `Initialization` always means what the router says it means.
pub open spec fn is_contract_error(e: Error) -> bool {
    e == Error::Deserialization || e == Error::Unimplemented || e == Error::Business
}

} // verus!
