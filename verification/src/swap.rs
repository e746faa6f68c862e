use vstd::prelude::*;

use crate::codec::{le_bytes, le_decode, le_to_u64, lemma_le_roundtrip, u64_to_le};
use crate::contract::{ContractImpl, Ctx, Outcome};
use crate::errors::Error;
use crate::store::Store;
use crate::types::{Addr, AddrV, Coin, Decimal};

verus! {

/// Envelope tags of the affiliate-swap message shapes.
pub const TAG_INSTANTIATE: u8 = 0;

pub const TAG_SWAP: u8 = 1;

pub const TAG_GET_MAX_FEE: u8 = 2;

pub const TAG_GET_SWAP_COUNT: u8 = 3;

/// Store keys of the affiliate-swap contract.
pub const KEY_MAX_FEE: u64 = 0;

pub const KEY_SWAP_COUNT: u64 = 1;

/// The instantiate payload: the largest fee rate the contract will accept.
pub struct InstantiateMsg {
    pub max_fee_percentage: Decimal,
}

/// The execute-message union of the affiliate-swap contract.
pub enum ExecMsg {
    Swap { output_amount: u64 },
}

/// The query-message union of the affiliate-swap contract.
pub enum QueryMsg {
    GetMaxFeePercentage,
    GetSwapCount,
}

/// The typed response to `GetMaxFeePercentage`.
pub struct MaxFeePercentageResponse {
    pub max_fee_percentage: Decimal,
}

pub open spec fn enc_instantiate(m: InstantiateMsg) -> Seq<u8> {
    seq![TAG_INSTANTIATE] + le_bytes(m.max_fee_percentage.atomics)
}

pub open spec fn dec_instantiate(s: Seq<u8>) -> Option<InstantiateMsg> {
    if s.len() == 9 && s[0] == TAG_INSTANTIATE {
        Some(
            InstantiateMsg {
                max_fee_percentage: Decimal { atomics: le_decode(s.subrange(1, 9)) },
            },
        )
    } else {
        None
    }
}

pub open spec fn enc_exec(m: ExecMsg) -> Seq<u8> {
    match m {
        ExecMsg::Swap { output_amount } => seq![TAG_SWAP] + le_bytes(output_amount),
    }
}

pub open spec fn dec_exec(s: Seq<u8>) -> Option<ExecMsg> {
    if s.len() == 9 && s[0] == TAG_SWAP {
        Some(ExecMsg::Swap { output_amount: le_decode(s.subrange(1, 9)) })
    } else {
        None
    }
}

pub open spec fn enc_query(q: QueryMsg) -> Seq<u8> {
    match q {
        QueryMsg::GetMaxFeePercentage => seq![TAG_GET_MAX_FEE],
        QueryMsg::GetSwapCount => seq![TAG_GET_SWAP_COUNT],
    }
}

pub open spec fn dec_query(s: Seq<u8>) -> Option<QueryMsg> {
    if s.len() == 1 && s[0] == TAG_GET_MAX_FEE {
        Some(QueryMsg::GetMaxFeePercentage)
    } else if s.len() == 1 && s[0] == TAG_GET_SWAP_COUNT {
        Some(QueryMsg::GetSwapCount)
    } else {
        None
    }
}

/// Decoding inverts encoding for every instantiate payload.
pub proof fn lemma_instantiate_roundtrip(m: InstantiateMsg)
    ensures
        dec_instantiate(enc_instantiate(m)) == Some(m),
{
    lemma_le_roundtrip(m.max_fee_percentage.atomics);
    assert(enc_instantiate(m).subrange(1, 9) =~= le_bytes(m.max_fee_percentage.atomics));
}

/// Decoding inverts encoding for every execute message.
pub proof fn lemma_exec_roundtrip(m: ExecMsg)
    ensures
        dec_exec(enc_exec(m)) == Some(m),
{
    match m {
        ExecMsg::Swap { output_amount } => {
            lemma_le_roundtrip(output_amount);
            assert(enc_exec(m).subrange(1, 9) =~= le_bytes(output_amount));
        },
    }
}

/// Decoding inverts encoding for every query message.
pub proof fn lemma_query_roundtrip(q: QueryMsg)
    ensures
        dec_query(enc_query(q)) == Some(q),
{
}

pub fn encode_instantiate_msg(m: &InstantiateMsg) -> (r: Vec<u8>)
    ensures
        r@ == enc_instantiate(*m),
{
    let mut r: Vec<u8> = Vec::new();
    r.push(TAG_INSTANTIATE);
    let mut tail = u64_to_le(m.max_fee_percentage.atomics);
    r.append(&mut tail);
    proof {
        assert(r@ =~= enc_instantiate(*m));
    }
    r
}

pub fn encode_exec_msg(m: &ExecMsg) -> (r: Vec<u8>)
    ensures
        r@ == enc_exec(*m),
{
    match m {
        ExecMsg::Swap { output_amount } => {
            let mut r: Vec<u8> = Vec::new();
            r.push(TAG_SWAP);
            let mut tail = u64_to_le(*output_amount);
            r.append(&mut tail);
            proof {
                assert(r@ =~= enc_exec(*m));
            }
            r
        },
    }
}

pub fn encode_query_msg(q: &QueryMsg) -> (r: Vec<u8>)
    ensures
        r@ == enc_query(*q),
{
    let mut r: Vec<u8> = Vec::new();
    match q {
        QueryMsg::GetMaxFeePercentage => {
            r.push(TAG_GET_MAX_FEE);
        },
        QueryMsg::GetSwapCount => {
            r.push(TAG_GET_SWAP_COUNT);
        },
    }
    proof {
        assert(r@ =~= enc_query(*q));
    }
    r
}

/// The fee rate the contract keeps in its store, read back as raw bytes;
/// zero before any instantiate wrote one.
pub open spec fn stored_fee(m: Map<u64, Seq<u8>>) -> Seq<u8> {
    if m.contains_key(KEY_MAX_FEE) {
        m[KEY_MAX_FEE]
    } else {
        le_bytes(0)
    }
}

/// The number of successful-or-attempted swaps recorded in the store.
pub open spec fn stored_count(m: Map<u64, Seq<u8>>) -> u64 {
    if m.contains_key(KEY_SWAP_COUNT) {
        le_decode(m[KEY_SWAP_COUNT])
    } else {
        0
    }
}

/// The value a swap may draw on: the first coin of the attached funds.
pub open spec fn swap_input(funds: Seq<Coin>) -> int {
    if funds.len() > 0 {
        funds[0].amount as int
    } else {
        0
    }
}

pub open spec fn next_count(c: u64) -> u64 {
    if c == u64::MAX {
        c
    } else {
        (c + 1) as u64
    }
}

/// The example contract routed by this harness's tests: it remembers a
/// maximum fee rate from instantiation, counts swap attempts, accepts a
/// swap only when the requested output is covered by the attached funds,
/// and deliberately declines `sudo`, `reply` and `migrate`.
pub struct AffiliateSwap {}

impl AffiliateSwap {
    pub fn new() -> (c: AffiliateSwap) {
        AffiliateSwap {  }
    }
}

impl ContractImpl for AffiliateSwap {
    /// A well-shaped instantiate payload stores its fee rate; any other
    /// envelope is rejected without touching the store.
    open spec fn on_instantiate(
        &self,
        store: Map<u64, Seq<u8>>,
        sender: AddrV,
        contract: AddrV,
        funds: Seq<Coin>,
        msg: Seq<u8>,
    ) -> Outcome {
        match dec_instantiate(msg) {
            None => Outcome { store, result: Err(Error::Deserialization) },
            Some(m) => Outcome {
                store: store.insert(KEY_MAX_FEE, le_bytes(m.max_fee_percentage.atomics)),
                result: Ok(Seq::empty()),
            },
        }
    }

    /// Every decoded swap is recorded in the store, then accepted exactly
    /// when the requested output is covered by the first attached coin.
    open spec fn on_execute(
        &self,
        store: Map<u64, Seq<u8>>,
        sender: AddrV,
        contract: AddrV,
        funds: Seq<Coin>,
        msg: Seq<u8>,
    ) -> Outcome {
        match dec_exec(msg) {
            None => Outcome { store, result: Err(Error::Deserialization) },
            Some(m) => match m {
                ExecMsg::Swap { output_amount } => Outcome {
                    store: store.insert(
                        KEY_SWAP_COUNT,
                        le_bytes(next_count(stored_count(store))),
                    ),
                    result: if output_amount as int <= swap_input(funds) {
                        Ok(Seq::empty())
                    } else {
                        Err(Error::Business)
                    },
                },
            },
        }
    }

    /// The two query shapes answer from the store; anything else is a
    /// shape mismatch.
    open spec fn on_query(&self, store: Map<u64, Seq<u8>>, contract: AddrV, msg: Seq<u8>) -> Result<
        Seq<u8>,
        Error,
    > {
        match dec_query(msg) {
            None => Err(Error::Deserialization),
            Some(q) => match q {
                QueryMsg::GetMaxFeePercentage => Ok(stored_fee(store)),
                QueryMsg::GetSwapCount => Ok(le_bytes(stored_count(store))),
            },
        }
    }

    /// This contract declines privileged calls.
    open spec fn on_sudo(&self, store: Map<u64, Seq<u8>>, contract: AddrV, msg: Seq<u8>) -> Outcome {
        Outcome { store, result: Err(Error::Unimplemented) }
    }

    /// This contract declines reply callbacks.
    open spec fn on_reply(&self, store: Map<u64, Seq<u8>>, contract: AddrV, msg: Seq<u8>) -> Outcome {
        Outcome { store, result: Err(Error::Unimplemented) }
    }

    /// This contract declines migration.
    open spec fn on_migrate(&self, store: Map<u64, Seq<u8>>, contract: AddrV, msg: Seq<u8>) -> Outcome {
        Outcome { store, result: Err(Error::Unimplemented) }
    }

    fn instantiate(&self, store: &mut Store, ctx: &Ctx, msg: &Vec<u8>) -> (r: Result<
        Vec<u8>,
        Error,
    >) {
        if msg.len() != 9 || msg[0] != TAG_INSTANTIATE {
            return Err(Error::Deserialization);
        }
        let fee = le_to_u64(msg, 1);
        store.set(KEY_MAX_FEE, u64_to_le(fee));
        Ok(Vec::new())
    }

    fn execute(&self, store: &mut Store, ctx: &Ctx, msg: &Vec<u8>) -> (r: Result<Vec<u8>, Error>) {
        if msg.len() != 9 || msg[0] != TAG_SWAP {
            return Err(Error::Deserialization);
        }
        let amount = le_to_u64(msg, 1);
        let cnt = read_count(store);
        let new_cnt = if cnt == u64::MAX {
            cnt
        } else {
            cnt + 1
        };
        store.set(KEY_SWAP_COUNT, u64_to_le(new_cnt));
        let input: u64 = if ctx.funds.len() > 0 {
            ctx.funds[0].amount
        } else {
            0
        };
        if amount > input {
            Err(Error::Business)
        } else {
            Ok(Vec::new())
        }
    }

    fn query(&self, store: &Store, contract: &Addr, msg: &Vec<u8>) -> (r: Result<Vec<u8>, Error>) {
        if msg.len() != 1 {
            return Err(Error::Deserialization);
        }
        let tag = msg[0];
        if tag == TAG_GET_MAX_FEE {
            match store.get(KEY_MAX_FEE) {
                Some(v) => Ok(v),
                None => Ok(u64_to_le(0)),
            }
        } else if tag == TAG_GET_SWAP_COUNT {
            let cnt = read_count(store);
            Ok(u64_to_le(cnt))
        } else {
            Err(Error::Deserialization)
        }
    }

    fn sudo(&self, store: &mut Store, contract: &Addr, msg: &Vec<u8>) -> (r: Result<
        Vec<u8>,
        Error,
    >) {
        Err(Error::Unimplemented)
    }

    fn reply(&self, store: &mut Store, contract: &Addr, msg: &Vec<u8>) -> (r: Result<
        Vec<u8>,
        Error,
    >) {
        Err(Error::Unimplemented)
    }

    fn migrate(&self, store: &mut Store, contract: &Addr, msg: &Vec<u8>) -> (r: Result<
        Vec<u8>,
        Error,
    >) {
        Err(Error::Unimplemented)
    }
}

/// Reads the swap counter from the store: the 64-bit little-endian value
/// under its key, zero when absent or malformed.
fn read_count(store: &Store) -> (r: u64)
    ensures
        r == stored_count(store@),
{
    match store.get(KEY_SWAP_COUNT) {
        Some(v) => {
            if v.len() == 8 {
                let r = le_to_u64(&v, 0);
                proof {
                    assert(v@.subrange(0, 8) =~= v@);
                }
                r
            } else {
                0
            }
        },
        None => 0,
    }
}

} // verus!
