use mixing_pool::contract::{
    change_admin, change_fee, change_operator, exit_pool, export_text, finalize_seed, handle, init,
    issue_ticket, open_pool, query, receive, seed_wallet, stored_text, Pool, BLOCK_SIZE,
};
use mixing_pool::entropy::seed_from_text;
use mixing_pool::env::Env;
use mixing_pool::error::{ErrorKind, PoolError};
use mixing_pool::msg::{
    redeem_msg, settlement, Settlement, ConfigResponse, ExistsResponse, HandleMsg, HandleReceiveMsg, HandleResponse, InitMsg,
    Instruction, InstructionKind, PoolSizeResponse, QueryMsg, QueryResponse, ReceivePayload,
    RedeemHandleMsg,
};
use mixing_pool::state::{load, may_load, remove, save, take_by_key, Pair, Slot, TicketStore};
use sha2::Digest;

fn init_msg(fee: u128, op_share: u128) -> InitMsg {
    InitMsg {
        admin: "admin".to_string(),
        operator: "operator".to_string(),
        fee,
        op_share,
        min_stack: 2,
        max_stack: 4,
        sscrt_addr: "token".to_string(),
        sscrt_hash: "codehash".to_string(),
        entropy: "some entropy".to_string(),
    }
}

fn env(sender: &str) -> Env {
    Env { height: 1234, time: 1_600_000_000, sender: sender.to_string() }
}

fn fresh() -> Pool {
    init(init_msg(10, 3)).unwrap()
}

fn read_seed() -> ReceivePayload {
    ReceivePayload::Read(HandleReceiveMsg::ReceiveSeed {})
}

fn sha(data: &[u8]) -> [u8; 32] {
    sha2::Sha256::digest(data).into()
}

fn lower_hex(data: &[u8]) -> String {
    let digits = b"0123456789abcdef";
    let mut out = String::new();
    for b in data {
        out.push(digits[(b >> 4) as usize] as char);
        out.push(digits[(b & 15) as usize] as char);
    }
    out
}

fn deposit(pool: &mut Pool, amount: u128) -> HandleResponse {
    receive(pool, &env("token"), "a".to_string(), "a".to_string(), amount, read_seed()).unwrap()
}

#[test]
fn init_opens_an_empty_active_pool() {
    let pool = fresh();
    assert_eq!(pool.config.admin, "admin");
    assert_eq!(pool.config.operator, "operator");
    assert!(pool.config.active);
    assert_eq!(pool.config.fee, 10);
    assert_eq!(pool.config.op_share, 3);
    assert_eq!(pool.config.min_stack, 2);
    assert_eq!(pool.config.max_stack, 4);
    assert_eq!(pool.pool_size, 0);
    assert_eq!(pool.snip20_address, "token");
    assert_eq!(pool.snip20_hash, "codehash");
    assert_eq!(pool.storage.len(), 0);
}

#[test]
fn init_seed_is_digest_of_base64_text() {
    let pool = fresh();
    assert_eq!(base64::encode("some entropy"), "c29tZSBlbnRyb3B5");
    let expected = sha(b"c29tZSBlbnRyb3B5");
    assert_eq!(pool.prng_seed, expected);
    assert_eq!(seed_from_text(&"some entropy".to_string()), expected);
    assert_ne!(&pool.prng_seed[..12], &b"some entropy"[..]);
}

#[test]
fn init_refuses_share_not_below_fee() {
    assert_eq!(init(init_msg(5, 5)), Err(PoolError::InvalidShare));
    assert_eq!(init(init_msg(5, 10)), Err(PoolError::InvalidShare));
    assert_eq!(init(init_msg(0, 0)), Err(PoolError::InvalidShare));
}

#[test]
fn init_refuses_bounds_out_of_order() {
    let mut msg = init_msg(10, 3);
    msg.min_stack = 0;
    assert_eq!(init(msg), Err(PoolError::InvalidBounds));
    let mut msg = init_msg(10, 3);
    msg.min_stack = 5;
    msg.max_stack = 4;
    assert_eq!(init(msg), Err(PoolError::InvalidBounds));
    let mut msg = init_msg(10, 10);
    msg.min_stack = 0;
    assert_eq!(open_pool(msg, [7u8; 32]), Err(PoolError::InvalidShare));
    let pool = open_pool(init_msg(10, 3), [7u8; 32]).unwrap();
    assert_eq!(pool.prng_seed, [7u8; 32]);
}

#[test]
fn preimages_read_as_formatted_text() {
    let seed: Vec<u8> = vec![0, 7, 42, 255, 100];
    let e = env("secret1caller");
    assert_eq!(export_text(&seed, 40), b"[0, 7, 42, 255, 100]+40".to_vec());
    assert_eq!(export_text(&seed, 40), format!("{:?}+{}", seed, 40u128).into_bytes());
    assert_eq!(
        stored_text(&seed, u128::MAX, &e),
        format!("{:?}+{}+{}+{}+{}", seed, u128::MAX, e.height, e.time, e.sender).into_bytes()
    );
    assert_eq!(export_text(&[], 0), b"[]+0".to_vec());
    assert_eq!(export_text(&[9], 10), b"[9]+10".to_vec());
}

#[test]
fn deposit_files_net_amount_under_derived_key() {
    let mut pool = fresh();
    let seed = pool.prng_seed;
    let e = env("token");
    let resp = receive(&mut pool, &e, "a".to_string(), "b".to_string(), 50, read_seed()).unwrap();
    let key = lower_hex(&sha(format!("{:?}+{}", seed.to_vec(), 40u128).as_bytes()));
    assert_eq!(key.len(), 64);
    assert_eq!(resp.tx_code, Some(key.clone()));
    assert_eq!(
        resp.messages,
        vec![
            Instruction { kind: InstructionKind::FeeTransfer, target: "admin".to_string(), amount: 7 },
            Instruction {
                kind: InstructionKind::FeeTransfer,
                target: "operator".to_string(),
                amount: 3
            },
        ]
    );
    assert_eq!(may_load(&pool.storage, key.as_bytes()), Some(Pair { gas: 40 }));
    assert_eq!(pool.pool_size, 1);
    let next = sha(
        format!("{:?}+{}+{}+{}+{}", seed.to_vec(), 40u128, e.height, e.time, e.sender).as_bytes(),
    );
    assert_eq!(pool.prng_seed, next);
    assert_eq!(pool.config, fresh().config);
}

#[test]
fn claim_key_is_lower_case_hex_of_digest() {
    let mut pool = open_pool(init_msg(10, 3), [0u8; 32]).unwrap();
    let resp = seed_wallet(&mut pool, &env("token"), 1).unwrap();
    let digest = sha(format!("{:?}+{}", vec![0u8; 32], 1u128).as_bytes());
    let key = resp.tx_code.unwrap();
    assert_eq!(key, hex::encode(digest));
    assert_eq!(key, lower_hex(&digest));
    assert_ne!(key.as_bytes(), &digest[..]);
    assert!(key.bytes().all(|c| c.is_ascii_digit() || (b'a'..=b'f').contains(&c)));
}

#[test]
fn successive_deposits_get_distinct_keys() {
    let mut pool = fresh();
    let first = deposit(&mut pool, 50).tx_code.unwrap();
    let second = deposit(&mut pool, 50).tx_code.unwrap();
    assert_ne!(first, second);
    assert_eq!(pool.pool_size, 2);
    assert_eq!(pool.storage.len(), 2);
    assert_eq!(load(&pool.storage, first.as_bytes()), Ok(Pair { gas: 40 }));
    assert_eq!(load(&pool.storage, second.as_bytes()), Ok(Pair { gas: 40 }));
}

#[test]
fn deposit_not_above_fee_is_rejected() {
    let mut pool = fresh();
    let before = pool.clone();
    for amount in [0u128, 9, 10] {
        let r = receive(&mut pool, &env("token"), "a".to_string(), "a".to_string(), amount, read_seed());
        assert_eq!(r, Err(PoolError::BelowMinimum));
        assert_eq!(pool, before);
    }
    let r = receive(&mut pool, &env("token"), "a".to_string(), "a".to_string(), 11, read_seed());
    assert!(r.is_ok());
    assert_eq!(pool.storage.slots[0].value, Pair { gas: 1 });
}

#[test]
fn deposit_from_another_source_is_rejected() {
    let mut pool = fresh();
    let before = pool.clone();
    let r = receive(&mut pool, &env("admin"), "a".to_string(), "a".to_string(), 50, read_seed());
    assert_eq!(r, Err(PoolError::WrongToken));
    let r = receive(&mut pool, &env("admin"), "a".to_string(), "a".to_string(), 1, ReceivePayload::Missing);
    assert_eq!(r, Err(PoolError::WrongToken));
    assert_eq!(pool, before);
}

#[test]
fn deposit_without_readable_payload_is_rejected() {
    let mut pool = fresh();
    let before = pool.clone();
    let r = receive(&mut pool, &env("token"), "a".to_string(), "a".to_string(), 50, ReceivePayload::Missing);
    assert_eq!(r, Err(PoolError::DataRequired));
    let r =
        receive(&mut pool, &env("token"), "a".to_string(), "a".to_string(), 50, ReceivePayload::Unreadable);
    assert_eq!(r, Err(PoolError::MalformedPayload));
    let r = receive(&mut pool, &env("token"), "a".to_string(), "a".to_string(), 5, ReceivePayload::Missing);
    assert_eq!(r, Err(PoolError::BelowMinimum));
    assert_eq!(pool, before);
}

#[test]
fn deposit_into_inactive_pool_is_rejected() {
    let mut pool = fresh();
    pool.config.active = false;
    let before = pool.clone();
    assert_eq!(seed_wallet(&mut pool, &env("token"), 40), Err(PoolError::Inactive));
    let r = receive(&mut pool, &env("token"), "a".to_string(), "a".to_string(), 50, read_seed());
    assert_eq!(r, Err(PoolError::Inactive));
    assert_eq!(pool, before);
}

#[test]
fn taken_key_and_full_counter_refuse_a_ticket() {
    let mut pool = fresh();
    let r = issue_ticket(&mut pool, "k1".to_string(), [1u8; 32], 40).unwrap();
    assert_eq!(r.tx_code, Some("k1".to_string()));
    assert_eq!(pool.prng_seed, [1u8; 32]);
    let before = pool.clone();
    assert_eq!(issue_ticket(&mut pool, "k1".to_string(), [2u8; 32], 5), Err(PoolError::KeyInUse));
    assert_eq!(pool, before);
    let mut full = fresh();
    for i in 0..u16::MAX {
        full.storage.slots.push(Slot { key: format!("{}", i).into_bytes(), value: Pair { gas: 1 } });
    }
    full.pool_size = u16::MAX;
    let before = full.clone();
    assert_eq!(issue_ticket(&mut full, "fresh".to_string(), [2u8; 32], 5), Err(PoolError::Overflow));
    assert_eq!(full, before);
}

#[test]
fn ticket_exits_exactly_once() {
    let mut pool = fresh();
    let key = deposit(&mut pool, 50).tx_code.unwrap();
    let other = deposit(&mut pool, 35).tx_code.unwrap();
    let r = exit_pool(&mut pool, &env("holder"), key.clone()).unwrap();
    assert_eq!(
        r.messages,
        vec![Instruction { kind: InstructionKind::Payout, target: "holder".to_string(), amount: 40 }]
    );
    assert_eq!(r.tx_code, None);
    assert_eq!(pool.pool_size, 1);
    assert_eq!(may_load(&pool.storage, key.as_bytes()), None);
    assert_eq!(may_load(&pool.storage, other.as_bytes()), Some(Pair { gas: 25 }));
    let before = pool.clone();
    assert_eq!(exit_pool(&mut pool, &env("holder"), key), Err(PoolError::NotFound));
    assert_eq!(pool, before);
}

#[test]
fn ticket_redeems_exactly_once() {
    let mut pool = fresh();
    let key = deposit(&mut pool, 50).tx_code.unwrap();
    let r = finalize_seed(&mut pool, &env("operator"), key.clone(), "payee".to_string()).unwrap();
    assert_eq!(
        r.messages,
        vec![
            Instruction { kind: InstructionKind::Convert, target: "token".to_string(), amount: 40 },
            Instruction { kind: InstructionKind::Payout, target: "payee".to_string(), amount: 40 },
        ]
    );
    assert_eq!(pool.pool_size, 0);
    assert_eq!(pool.storage.len(), 0);
    assert_eq!(
        finalize_seed(&mut pool, &env("operator"), key.clone(), "payee".to_string()),
        Err(PoolError::NotFound)
    );
    assert_eq!(exit_pool(&mut pool, &env("payee"), key), Err(PoolError::NotFound));
}

#[test]
fn finalize_needs_operator_and_active_pool() {
    let mut pool = fresh();
    let key = deposit(&mut pool, 50).tx_code.unwrap();
    let before = pool.clone();
    assert_eq!(
        finalize_seed(&mut pool, &env("admin"), key.clone(), "payee".to_string()),
        Err(PoolError::NotOperator)
    );
    assert_eq!(
        finalize_seed(&mut pool, &env("admin"), "nokey".to_string(), "payee".to_string()),
        Err(PoolError::NotOperator)
    );
    assert_eq!(pool, before);
    pool.config.active = false;
    assert_eq!(
        finalize_seed(&mut pool, &env("operator"), key.clone(), "payee".to_string()),
        Err(PoolError::Inactive)
    );
    assert!(exit_pool(&mut pool, &env("holder"), key).is_ok());
}

#[test]
fn unknown_key_is_not_found() {
    let mut pool = fresh();
    deposit(&mut pool, 50);
    let before = pool.clone();
    assert_eq!(exit_pool(&mut pool, &env("holder"), "00".to_string()), Err(PoolError::NotFound));
    assert_eq!(
        finalize_seed(&mut pool, &env("operator"), String::new(), "p".to_string()),
        Err(PoolError::NotFound)
    );
    assert_eq!(pool, before);
}

#[test]
fn change_fee_with_share_not_below_fee_is_rejected() {
    let mut pool = fresh();
    let before = pool.clone();
    assert_eq!(change_fee(&mut pool, &env("admin"), 5, 10), Err(PoolError::InvalidShare));
    assert_eq!(change_fee(&mut pool, &env("admin"), 5, 5), Err(PoolError::InvalidShare));
    assert_eq!(pool, before);
    assert_eq!(change_fee(&mut pool, &env("admin"), 5, 4), Ok(HandleResponse::empty()));
    assert_eq!(pool.config.fee, 5);
    assert_eq!(pool.config.op_share, 4);
    assert_eq!(pool.config.admin, before.config.admin);
    let resp = deposit(&mut pool, 50);
    assert_eq!(resp.messages[0].amount, 1);
    assert_eq!(resp.messages[1].amount, 4);
    assert_eq!(pool.storage.slots[0].value.gas, 45);
}

#[test]
fn admin_commands_need_the_admin() {
    let mut pool = fresh();
    let before = pool.clone();
    assert_eq!(change_fee(&mut pool, &env("operator"), 20, 1), Err(PoolError::Unauthorized));
    assert_eq!(change_fee(&mut pool, &env("mallory"), 5, 10), Err(PoolError::Unauthorized));
    assert_eq!(change_admin(&mut pool, &env("mallory"), "mallory".to_string()), Err(PoolError::Unauthorized));
    assert_eq!(
        change_operator(&mut pool, &env("operator"), "mallory".to_string()),
        Err(PoolError::Unauthorized)
    );
    assert_eq!(pool, before);
}

#[test]
fn admin_and_operator_can_be_replaced() {
    let mut pool = fresh();
    assert_eq!(change_admin(&mut pool, &env("admin"), "next".to_string()), Ok(HandleResponse::empty()));
    assert_eq!(pool.config.admin, "next");
    assert_eq!(pool.config.operator, "operator");
    assert_eq!(change_admin(&mut pool, &env("admin"), "admin".to_string()), Err(PoolError::Unauthorized));
    assert_eq!(
        change_operator(&mut pool, &env("next"), "op2".to_string()),
        Ok(HandleResponse::empty())
    );
    assert_eq!(pool.config.operator, "op2");
    assert_eq!(pool.config.admin, "next");
    let resp = deposit(&mut pool, 50);
    assert_eq!(resp.messages[0].target, "next");
    assert_eq!(resp.messages[1].target, "op2");
}

#[test]
fn handle_dispatches_every_command() {
    let mut pool = fresh();
    let r = handle(
        &mut pool,
        &env("token"),
        HandleMsg::Receive {
            sender: "a".to_string(),
            from: "a".to_string(),
            amount: 50,
            msg: read_seed(),
        },
    )
    .unwrap();
    let k1 = r.tx_code.unwrap();
    let r = handle(
        &mut pool,
        &env("token"),
        HandleMsg::Receive {
            sender: "a".to_string(),
            from: "a".to_string(),
            amount: 60,
            msg: read_seed(),
        },
    )
    .unwrap();
    let k2 = r.tx_code.unwrap();
    let r = handle(&mut pool, &env("x"), HandleMsg::ExitPool { tx_key: k1 }).unwrap();
    assert_eq!(r.messages.len(), 1);
    assert_eq!(r.messages[0].amount, 40);
    let r = handle(
        &mut pool,
        &env("operator"),
        HandleMsg::FinalizeSeed { tx_key: k2, sender: "p".to_string() },
    )
    .unwrap();
    assert_eq!(r.messages.len(), 2);
    assert_eq!(r.messages[1].amount, 50);
    assert_eq!(pool.pool_size, 0);
    handle(&mut pool, &env("admin"), HandleMsg::ChangeFee { new_fee: 8, new_op_share: 2 }).unwrap();
    assert_eq!((pool.config.fee, pool.config.op_share), (8, 2));
    handle(&mut pool, &env("admin"), HandleMsg::ChangeOperator { new_operator: "o2".to_string() })
        .unwrap();
    assert_eq!(pool.config.operator, "o2");
    assert_eq!(pool.config.admin, "admin");
    handle(&mut pool, &env("admin"), HandleMsg::ChangeAdmin { new_admin: "a2".to_string() }).unwrap();
    assert_eq!(pool.config.admin, "a2");
    assert_eq!(
        handle(&mut pool, &env("admin"), HandleMsg::ChangeFee { new_fee: 8, new_op_share: 2 }),
        Err(PoolError::Unauthorized)
    );
}

#[test]
fn pending_total_follows_deposits_and_payouts() {
    let mut pool = fresh();
    let total = |p: &Pool| p.storage.slots.iter().map(|s| s.value.gas).sum::<u128>();
    let k1 = deposit(&mut pool, 50).tx_code.unwrap();
    assert_eq!(total(&pool), 40);
    let k2 = deposit(&mut pool, 31).tx_code.unwrap();
    assert_eq!(total(&pool), 61);
    let r = exit_pool(&mut pool, &env("h"), k2).unwrap();
    assert_eq!(total(&pool) + r.messages[0].amount, 61);
    let r = finalize_seed(&mut pool, &env("operator"), k1, "p".to_string()).unwrap();
    assert_eq!(total(&pool) + r.messages[1].amount, 40);
    assert_eq!(total(&pool), 0);
    assert_eq!(pool.pool_size as usize, pool.storage.len());
}

#[test]
fn queries_report_config_existence_and_size() {
    let mut pool = fresh();
    let key = deposit(&mut pool, 50).tx_code.unwrap();
    assert_eq!(
        query(&pool, QueryMsg::GetConfig {}),
        QueryResponse::Config(ConfigResponse { active: true, fee: 10, min_stack: 2, max_stack: 4 })
    );
    assert_eq!(
        query(&pool, QueryMsg::GetExists { tx_key: key.clone() }),
        QueryResponse::Exists(ExistsResponse { exists: true })
    );
    assert_eq!(
        query(&pool, QueryMsg::GetExists { tx_key: "zz".to_string() }),
        QueryResponse::Exists(ExistsResponse { exists: false })
    );
    assert_eq!(
        query(&pool, QueryMsg::GetPoolSize {}),
        QueryResponse::PoolSize(PoolSizeResponse { pool_size: 1 })
    );
    exit_pool(&mut pool, &env("h"), key.clone()).unwrap();
    assert_eq!(
        query(&pool, QueryMsg::GetExists { tx_key: key }),
        QueryResponse::Exists(ExistsResponse { exists: false })
    );
    assert_eq!(
        query(&pool, QueryMsg::GetPoolSize {}),
        QueryResponse::PoolSize(PoolSizeResponse { pool_size: 0 })
    );
}

#[test]
fn store_saves_loads_and_removes_by_key() {
    let mut store = TicketStore::new();
    assert_eq!(store.len(), 0);
    assert_eq!(may_load(&store, b"a"), None);
    assert_eq!(load(&store, b"a"), Err(PoolError::NotFound));
    save(&mut store, b"a", &Pair { gas: 1 });
    save(&mut store, b"b", &Pair { gas: 2 });
    save(&mut store, b"", &Pair { gas: 3 });
    assert_eq!(store.len(), 3);
    assert_eq!(load(&store, b"a"), Ok(Pair { gas: 1 }));
    assert_eq!(may_load(&store, b"b"), Some(Pair { gas: 2 }));
    assert_eq!(may_load(&store, b""), Some(Pair { gas: 3 }));
    assert_eq!(may_load(&store, b"ab"), None);
    save(&mut store, b"a", &Pair { gas: 9 });
    assert_eq!(store.len(), 3);
    assert_eq!(load(&store, b"a"), Ok(Pair { gas: 9 }));
    remove(&mut store, b"a");
    assert_eq!(store.len(), 2);
    assert_eq!(load(&store, b"a"), Err(PoolError::NotFound));
    assert_eq!(load(&store, b"b"), Ok(Pair { gas: 2 }));
    remove(&mut store, b"a");
    remove(&mut store, b"zz");
    assert_eq!(store.len(), 2);
    remove(&mut store, b"");
    remove(&mut store, b"b");
    assert_eq!(store.len(), 0);
}

#[test]
fn redeem_command_names_native_denomination() {
    assert_eq!(
        redeem_msg(40),
        RedeemHandleMsg::Redeem { amount: 40, denom: Some("uscrt".to_string()), padding: None }
    );
    assert_eq!(BLOCK_SIZE, 256);
}

#[test]
fn errors_carry_their_text() {
    assert_eq!(PoolError::Unauthorized.message(), "This function is only usable by the Admin");
    assert_eq!(PoolError::NotOperator.message(), "You are not a verified operator");
    assert_eq!(PoolError::WrongToken.message(), "Address is not correct snip contract");
    assert_eq!(PoolError::Inactive.message(), "Transfers are currently disabled");
    assert_eq!(
        PoolError::BelowMinimum.message(),
        "You have not reached the minumum amount for a transaction"
    );
    assert_eq!(PoolError::DataRequired.message(), "data should be given");
    assert_eq!(
        PoolError::InvalidShare.message(),
        "The operator share must be less than the total fee"
    );
    assert_eq!(PoolError::NotFound.message(), "There are no pending transactions with this key.");
    for e in [
        PoolError::MalformedPayload,
        PoolError::InvalidBounds,
        PoolError::Underflow,
        PoolError::Overflow,
        PoolError::KeyInUse,
    ] {
        assert!(!e.message().is_empty());
    }
}

#[test]
fn errors_fall_into_their_classes() {
    assert_eq!(PoolError::Unauthorized.kind(), ErrorKind::Authorization);
    assert_eq!(PoolError::NotOperator.kind(), ErrorKind::Authorization);
    assert_eq!(PoolError::NotFound.kind(), ErrorKind::NotFound);
    assert_eq!(PoolError::Underflow.kind(), ErrorKind::Arithmetic);
    assert_eq!(PoolError::Overflow.kind(), ErrorKind::Arithmetic);
    for e in [
        PoolError::WrongToken,
        PoolError::Inactive,
        PoolError::BelowMinimum,
        PoolError::DataRequired,
        PoolError::MalformedPayload,
        PoolError::InvalidShare,
        PoolError::InvalidBounds,
        PoolError::KeyInUse,
    ] {
        assert_eq!(e.kind(), ErrorKind::Precondition);
    }
}

#[test]
fn take_by_key_hands_the_entry_over_once() {
    let mut store = TicketStore::new();
    save(&mut store, b"a", &Pair { gas: 1 });
    save(&mut store, b"b", &Pair { gas: 2 });
    assert_eq!(take_by_key(&mut store, b"c"), Err(PoolError::NotFound));
    assert_eq!(store.len(), 2);
    assert_eq!(take_by_key(&mut store, b"a"), Ok(Pair { gas: 1 }));
    assert_eq!(take_by_key(&mut store, b"a"), Err(PoolError::NotFound));
    assert_eq!(store.len(), 1);
    assert_eq!(may_load(&store, b"b"), Some(Pair { gas: 2 }));
}

#[test]
fn validity_check_finds_broken_pools() {
    let mut pool = fresh();
    assert!(pool.is_valid());
    deposit(&mut pool, 50);
    deposit(&mut pool, 60);
    assert!(pool.is_valid());
    let mut counted = pool.clone();
    counted.pool_size = 3;
    assert!(!counted.is_valid());
    let mut twice = pool.clone();
    twice.storage.slots[1].key = twice.storage.slots[0].key.clone();
    assert!(!twice.is_valid());
    assert!(!twice.storage.is_valid());
    let mut shares = pool.clone();
    shares.config.op_share = shares.config.fee;
    assert!(shares.is_valid());
    assert!(!shares.config.is_valid());
    let mut bounds = pool.clone();
    bounds.config.min_stack = 0;
    assert!(!bounds.config.is_valid());
    bounds.config.min_stack = 5;
    assert!(!bounds.config.is_valid());
}

#[test]
fn seed_and_key_have_their_known_values() {
    let pool = fresh();
    assert_eq!(
        pool.prng_seed,
        [
            168, 202, 138, 163, 23, 47, 29, 239, 73, 138, 84, 54, 204, 98, 0, 211, 1, 13, 42, 49, 182,
            143, 148, 123, 188, 154, 212, 136, 58, 194, 128, 255
        ]
    );
    let mut pool = open_pool(init_msg(10, 3), [0u8; 32]).unwrap();
    let resp = seed_wallet(&mut pool, &env("token"), 1).unwrap();
    assert_eq!(
        resp.tx_code,
        Some("8c19f84c3bee30c807725607485a67e6974084ceb6fc26a563af6bd539628bec".to_string())
    );
    assert_eq!(
        pool.prng_seed,
        [
            68, 164, 80, 85, 225, 106, 54, 61, 244, 163, 137, 139, 240, 111, 202, 78, 229, 188, 155,
            220, 43, 78, 44, 208, 48, 240, 174, 254, 250, 110, 126, 10
        ]
    );
}

#[test]
fn payouts_settle_natively_only_after_a_conversion() {
    let mut pool = fresh();
    let k1 = deposit(&mut pool, 50).tx_code.unwrap();
    let k2 = deposit(&mut pool, 50).tx_code.unwrap();
    let fees = deposit(&mut pool, 50).messages;
    assert_eq!(settlement(&fees, 0), Settlement::Transfer);
    assert_eq!(settlement(&fees, 1), Settlement::Transfer);
    let exit = exit_pool(&mut pool, &env("h"), k1).unwrap().messages;
    assert_eq!(settlement(&exit, 0), Settlement::Transfer);
    let paid = finalize_seed(&mut pool, &env("operator"), k2, "p".to_string()).unwrap().messages;
    assert_eq!(settlement(&paid, 0), Settlement::Redeem);
    assert_eq!(settlement(&paid, 1), Settlement::Send);
    let mixed = vec![exit[0].clone(), paid[0].clone(), exit[0].clone(), paid[0].clone()];
    assert_eq!(settlement(&mixed, 0), Settlement::Transfer);
    assert_eq!(settlement(&mixed, 2), Settlement::Send);
    assert_eq!(settlement(&mixed, 3), Settlement::Redeem);
}

#[test]
fn share_above_fee_refuses_the_deposit() {
    let mut pool = fresh();
    pool.config.op_share = 11;
    let before = pool.clone();
    assert_eq!(seed_wallet(&mut pool, &env("token"), 40), Err(PoolError::Underflow));
    let r = receive(&mut pool, &env("token"), "a".to_string(), "a".to_string(), 50, read_seed());
    assert_eq!(r, Err(PoolError::Underflow));
    assert_eq!(issue_ticket(&mut pool, "k".to_string(), [1u8; 32], 40), Err(PoolError::Underflow));
    assert_eq!(pool, before);
    pool.config.op_share = 10;
    let r = receive(&mut pool, &env("token"), "a".to_string(), "a".to_string(), 50, read_seed()).unwrap();
    assert_eq!(r.messages[0].amount, 0);
    assert_eq!(r.messages[1].amount, 10);
}
