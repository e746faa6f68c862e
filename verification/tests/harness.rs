use ledger_harness::codec::{le_to_u64, u64_to_le};
use ledger_harness::env::{TestEnv, TestEnvBuilder};
use ledger_harness::errors::Error;
use ledger_harness::swap::{encode_exec_msg, encode_query_msg, ExecMsg, InstantiateMsg, QueryMsg};
use ledger_harness::types::{Addr, Coin, Decimal};

/// 0.05 in eighteen-decimal fixed point.
const FIVE_PERCENT: u64 = 50_000_000_000_000_000;

fn coin(denom: &str, amount: u64) -> Coin {
    Coin { denom: denom.to_string(), amount }
}

fn fee_env() -> TestEnv {
    TestEnvBuilder::new()
        .with_account("alice", vec![coin("uusd", 1000)])
        .with_instantiate_msg(InstantiateMsg {
            max_fee_percentage: Decimal { atomics: FIVE_PERCENT },
        })
        .build()
        .unwrap()
}

fn swap_envelope(output_amount: u64) -> Vec<u8> {
    encode_exec_msg(&ExecMsg::Swap { output_amount })
}

#[test]
fn build_seeds_accounts_and_instantiates() {
    let env = fee_env();
    let alice = Addr::Named("alice".to_string());
    assert_eq!(env.balance_of(&alice, &"uusd".to_string()), 1000);
    assert!(env.contract == Addr::Instance(0));
    assert!(env.creator == Addr::Named("creator".to_string()));
}

#[test]
fn query_returns_configured_max_fee() {
    let env = fee_env();
    let fee = env.query_max_fee().unwrap();
    assert_eq!(fee, Decimal { atomics: FIVE_PERCENT });
    assert_eq!(fee.atomics as f64 / 1e18, 0.05);
}

#[test]
fn swap_business_failure_rolls_back_ledger_and_store() {
    let mut env = fee_env();
    let alice = Addr::Named("alice".to_string());
    // The transfer of 100 uusd succeeds, but the requested output of 1100
    // exceeds what the attached funds cover, so the deeper business logic
    // fails and everything is restored.
    let r = env.execute(&alice, &vec![coin("uusd", 100)], &swap_envelope(1100));
    assert_eq!(r, Err(Error::Business));
    assert_eq!(env.balance_of(&alice, &"uusd".to_string()), 1000);
    assert_eq!(env.balance_of(&env.contract.clone(), &"uusd".to_string()), 0);
    assert_eq!(env.query_swap_count().unwrap(), 0);
}

#[test]
fn swap_success_moves_funds_and_conserves_supply() {
    let mut env = fee_env();
    let alice = Addr::Named("alice".to_string());
    let r = env.execute(&alice, &vec![coin("uusd", 100)], &swap_envelope(50));
    assert!(r.is_ok());
    let a = env.balance_of(&alice, &"uusd".to_string());
    let c = env.balance_of(&env.contract.clone(), &"uusd".to_string());
    assert_eq!(a, 900);
    assert_eq!(c, 100);
    assert_eq!(a + c, 1000);
    assert_eq!(env.query_swap_count().unwrap(), 1);
}

#[test]
fn insufficient_funds_fails_immediately_without_residue() {
    let mut env = fee_env();
    let bob = Addr::Named("bob".to_string());
    let r = env.execute(&bob, &vec![coin("uusd", 50)], &swap_envelope(10));
    assert_eq!(r, Err(Error::InsufficientFunds));
    // No store change: the entry point never ran.
    assert_eq!(env.query_swap_count().unwrap(), 0);
    // No ledger change either.
    let alice = Addr::Named("alice".to_string());
    assert_eq!(env.balance_of(&alice, &"uusd".to_string()), 1000);
    assert_eq!(env.balance_of(&bob, &"uusd".to_string()), 0);
}

#[test]
fn swap_count_records_only_committed_attempts() {
    let mut env = fee_env();
    let alice = Addr::Named("alice".to_string());
    let r1 = env.execute(&alice, &vec![coin("uusd", 10)], &swap_envelope(999));
    assert_eq!(r1, Err(Error::Business));
    let r2 = env.execute(&alice, &vec![coin("uusd", 10)], &swap_envelope(5));
    assert!(r2.is_ok());
    let r3 = env.execute(&alice, &vec![coin("uusd", 10)], &swap_envelope(999));
    assert_eq!(r3, Err(Error::Business));
    assert_eq!(env.query_swap_count().unwrap(), 1);
}

#[test]
fn sudo_reply_migrate_propagate_unimplemented() {
    let mut env = fee_env();
    let envelope = vec![9u8];
    assert_eq!(env.sudo(&envelope), Err(Error::Unimplemented));
    assert_eq!(env.reply(&envelope), Err(Error::Unimplemented));
    assert_eq!(env.migrate(&envelope), Err(Error::Unimplemented));
    // The environment is untouched by the declined calls.
    assert_eq!(env.query_max_fee().unwrap(), Decimal { atomics: FIVE_PERCENT });
}

#[test]
fn instantiate_never_reuses_an_address() {
    let mut env = fee_env();
    let creator = env.creator.clone();
    let msg = ledger_harness::swap::encode_instantiate_msg(&InstantiateMsg {
        max_fee_percentage: Decimal { atomics: 1 },
    });
    let no_funds: Vec<Coin> = Vec::new();
    let (a1, _) = env.instantiate(&creator, &no_funds, &msg).unwrap();
    let (a2, _) = env.instantiate(&creator, &no_funds, &msg).unwrap();
    assert!(a1 != env.contract);
    assert!(a2 != env.contract);
    assert!(a1 != a2);
    assert!(a1 == Addr::Instance(1));
    assert!(a2 == Addr::Instance(2));
}

#[test]
fn build_without_instantiate_msg_fails() {
    let r = TestEnvBuilder::new()
        .with_account("alice", vec![coin("uusd", 5)])
        .build();
    assert!(matches!(r, Err(Error::Initialization)));
}

#[test]
fn seeding_after_first_dispatch_fails() {
    let mut env = fee_env();
    let alice = Addr::Named("alice".to_string());
    env.execute(&alice, &vec![coin("uusd", 1)], &swap_envelope(1)).unwrap();
    let zed = Addr::Named("zed".to_string());
    let r = env.app.init_balance(&zed, &vec![coin("uusd", 7)]);
    assert_eq!(r, Err(Error::Initialization));
}

#[test]
fn malformed_envelopes_fail_with_deserialization() {
    let mut env = fee_env();
    let alice = Addr::Named("alice".to_string());
    // An execute envelope handed to query, and vice versa.
    let q = env.query(&swap_envelope(1));
    assert_eq!(q, Err(Error::Deserialization));
    let e = env.execute(
        &alice,
        &Vec::new(),
        &encode_query_msg(&QueryMsg::GetMaxFeePercentage),
    );
    assert_eq!(e, Err(Error::Deserialization));
    // An empty envelope fits no shape.
    assert_eq!(env.query(&Vec::new()), Err(Error::Deserialization));
}

#[test]
fn unknown_addresses_and_codes_are_reported() {
    let mut env = fee_env();
    let alice = Addr::Named("alice".to_string());
    let nobody = Addr::Named("nobody".to_string());
    let r = env.app.execute(&nobody, &alice, &Vec::new(), &swap_envelope(1));
    assert_eq!(r, Err(Error::NoSuchContract));
    let r2 = env.app.execute(&Addr::Instance(7), &alice, &Vec::new(), &swap_envelope(1));
    assert_eq!(r2, Err(Error::NoSuchContract));
    let r3 = env.app.instantiate(42, &alice, &Vec::new(), &swap_envelope(1));
    assert_eq!(r3.err(), Some(Error::UnknownCode));
}

#[test]
fn with_account_last_write_wins() {
    let env = TestEnvBuilder::new()
        .with_account("alice", vec![coin("uusd", 1000), coin("uatom", 3)])
        .with_account("alice", vec![coin("uusd", 500)])
        .with_instantiate_msg(InstantiateMsg {
            max_fee_percentage: Decimal { atomics: FIVE_PERCENT },
        })
        .build()
        .unwrap();
    let alice = Addr::Named("alice".to_string());
    assert_eq!(env.balance_of(&alice, &"uusd".to_string()), 500);
    // The earlier balance list was replaced outright, not merged.
    assert_eq!(env.balance_of(&alice, &"uatom".to_string()), 0);
}

#[test]
fn balances_of_unknown_accounts_read_zero() {
    let env = fee_env();
    let ghost_account = Addr::Named("nobody".to_string());
    assert_eq!(env.balance_of(&ghost_account, &"uusd".to_string()), 0);
    let alice = Addr::Named("alice".to_string());
    assert_eq!(env.balance_of(&alice, &"uatom".to_string()), 0);
}

#[test]
fn account_mapping_covers_exactly_the_seeded_names() {
    let env = fee_env();
    let a = env.account_addr(&"alice".to_string());
    assert!(a == Some(Addr::Named("alice".to_string())));
    assert!(env.account_addr(&"bob".to_string()).is_none());
}

#[test]
fn multi_denomination_transfer_conserves_each_supply() {
    let mut env = TestEnvBuilder::new()
        .with_account("alice", vec![coin("uusd", 100), coin("uatom", 7)])
        .with_instantiate_msg(InstantiateMsg {
            max_fee_percentage: Decimal { atomics: FIVE_PERCENT },
        })
        .build()
        .unwrap();
    let alice = Addr::Named("alice".to_string());
    let r = env.execute(
        &alice,
        &vec![coin("uusd", 30), coin("uatom", 5)],
        &swap_envelope(10),
    );
    assert!(r.is_ok());
    let contract = env.contract.clone();
    assert_eq!(env.balance_of(&alice, &"uusd".to_string()), 70);
    assert_eq!(env.balance_of(&contract, &"uusd".to_string()), 30);
    assert_eq!(env.balance_of(&alice, &"uatom".to_string()), 2);
    assert_eq!(env.balance_of(&contract, &"uatom".to_string()), 5);
}

#[test]
fn little_endian_codec_roundtrips() {
    let x: u64 = 0x0123_4567_89ab_cdef;
    let b = u64_to_le(x);
    assert_eq!(b, vec![0xef, 0xcd, 0xab, 0x89, 0x67, 0x45, 0x23, 0x01]);
    assert_eq!(le_to_u64(&b, 0), x);
    let zero = u64_to_le(0);
    assert_eq!(zero, vec![0u8; 8]);
    assert_eq!(le_to_u64(&zero, 0), 0);
}

#[test]
fn queries_leave_the_environment_untouched() {
    let env = fee_env();
    let alice = Addr::Named("alice".to_string());
    // Repeated queries answer identically and move no value: the router
    // hands queries a read-only view.
    let first = env.query_max_fee().unwrap();
    let second = env.query_max_fee().unwrap();
    assert_eq!(first, second);
    assert_eq!(env.query_swap_count().unwrap(), 0);
    assert_eq!(env.balance_of(&alice, &"uusd".to_string()), 1000);
}

#[test]
fn zero_output_swap_with_no_funds_succeeds() {
    let mut env = fee_env();
    let alice = Addr::Named("alice".to_string());
    let r = env.execute(&alice, &Vec::new(), &swap_envelope(0));
    assert!(r.is_ok());
    assert_eq!(env.query_swap_count().unwrap(), 1);
    assert_eq!(env.balance_of(&alice, &"uusd".to_string()), 1000);
}

#[test]
fn codec_handles_the_largest_value() {
    let b = u64_to_le(u64::MAX);
    assert_eq!(b, vec![0xff; 8]);
    assert_eq!(le_to_u64(&b, 0), u64::MAX);
}

#[test]
fn reseeding_the_same_account_fails() {
    let mut app: ledger_harness::router::App<ledger_harness::swap::AffiliateSwap> =
        ledger_harness::router::App::new();
    let alice = Addr::Named("alice".to_string());
    assert!(app.init_balance(&alice, &vec![coin("uusd", 5)]).is_ok());
    // Seeding is one-time per account: a second write is refused and the
    // first balances stand.
    let r = app.init_balance(&alice, &vec![coin("uusd", 9)]);
    assert_eq!(r, Err(Error::Initialization));
    assert_eq!(app.balance_of(&alice, &"uusd".to_string()), 5);
}
