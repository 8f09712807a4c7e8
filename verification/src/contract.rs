//! The ticket pool: every accepted deposit is filed under a freshly derived
//! claim key and stays there until the key is redeemed or exited.

use vstd::prelude::*;
use vstd::utf8::encode_utf8;
use crate::bytes::{append_bytes, decimal_text, list_text, push_decimal, push_list};
use crate::entropy::{hex_encode, hex_text, initial_seed, seed_from_text, sha256_digest, sha_256};
use crate::env::Env;
use crate::error::PoolError;
use crate::msg::{
    ConfigResponse, ExistsResponse, HandleMsg, HandleReceiveMsg, HandleResponse, InitMsg, Instruction,
    InstructionKind, PoolSizeResponse, QueryMsg, QueryResponse, ReceivePayload, config_snapshot,
    paid_out,
};
use crate::state::{
    Config, Pair, TicketStore, bounds_valid, lemma_count_is_domain_size, may_load, save, shares_valid,
    take_by_key,
};

verus! {

/// Responses and their attributes are padded to blocks of this many bytes, so
/// that their size tells nothing.
pub const BLOCK_SIZE: usize = 256;

/// The state of a ticket pool.
#[derive(Clone, Debug, PartialEq, Eq)]
pub struct Pool {
    pub config: Config,
    /// The entropy seed. Every deposit replaces it.
    pub prng_seed: [u8; 32],
    /// The number of outstanding tickets.
    pub pool_size: u16,
    /// Address of the custody token, the only announcer of deposits.
    pub snip20_address: String,
    /// Code hash of the custody token.
    pub snip20_hash: String,
    /// The pending entries, by claim key.
    pub storage: TicketStore,
}

impl Pool {
    /// No key is filed twice and the counter equals the number of entries.
    pub open spec fn wf(&self) -> bool {
        &&& self.storage.wf()
        &&& self.pool_size as nat == self.storage.count()
    }

    /// The sum of all pending amounts.
    pub open spec fn total(&self) -> nat {
        self.storage.total()
    }

    /// Whether this pool is well formed.
    pub fn is_valid(&self) -> (r: bool)
        ensures
            r == self.wf(),
    {
        self.storage.is_valid() && self.storage.len() == self.pool_size as usize
    }
}


/// What is hashed into a claim key: the seed as a bracketed list, a plus sign
/// and the net amount.
pub open spec fn export_preimage(seed: Seq<u8>, gas: u128) -> Seq<u8> {
    list_text(seed) + seq![43u8] + decimal_text(gas as nat)
}

/// What is hashed into the next seed: the claim key's preimage, then block
/// height, block time and caller, each after a plus sign.
pub open spec fn stored_preimage(seed: Seq<u8>, gas: u128, env: Env) -> Seq<u8> {
    export_preimage(seed, gas) + seq![43u8] + decimal_text(env.height as nat) + seq![43u8]
        + decimal_text(env.time as nat) + seq![43u8] + encode_utf8(env.sender@)
}

/// The claim key of a deposit of net amount `gas` made under `seed`.
pub open spec fn ticket_key(seed: Seq<u8>, gas: u128) -> Seq<char> {
    hex_text(sha256_digest(export_preimage(seed, gas)))
}

/// The seed that follows a deposit of net amount `gas` made under `seed`.
pub open spec fn next_seed(seed: Seq<u8>, gas: u128, env: Env) -> Seq<u8> {
    sha256_digest(stored_preimage(seed, gas, env))
}

/// The two fee instructions of a deposit: the admin's part, then the
/// operator's.
pub open spec fn fee_messages(config: Config) -> Seq<Instruction> {
    seq![
        Instruction {
            kind: InstructionKind::FeeTransfer,
            target: config.admin,
            amount: (config.fee - config.op_share) as u128,
        },
        Instruction {
            kind: InstructionKind::FeeTransfer,
            target: config.operator,
            amount: config.op_share,
        },
    ]
}

/// Renders the preimage of a claim key.
pub fn export_text(seed: &[u8], gas_amount: u128) -> (r: Vec<u8>)
    ensures
        r@ == export_preimage(seed@, gas_amount),
{
    let mut out: Vec<u8> = Vec::new();
    push_list(&mut out, seed);
    out.push(43u8);
    push_decimal(&mut out, gas_amount);
    assert(out@ =~= export_preimage(seed@, gas_amount));
    out
}

/// Renders the preimage of the next seed.
pub fn stored_text(seed: &[u8], gas_amount: u128, env: &Env) -> (r: Vec<u8>)
    ensures
        r@ == stored_preimage(seed@, gas_amount, *env),
{
    let mut out: Vec<u8> = export_text(seed, gas_amount);
    out.push(43u8);
    push_decimal(&mut out, env.height as u128);
    out.push(43u8);
    push_decimal(&mut out, env.time as u128);
    out.push(43u8);
    append_bytes(&mut out, env.sender.as_str().as_bytes());
    assert(out@ =~= stored_preimage(seed@, gas_amount, *env));
    out
}

/// What `open_pool` returns for a message and a seed.
pub open spec fn open_pool_post(msg: InitMsg, seed: Seq<u8>, r: Result<Pool, PoolError>) -> bool {
    if !shares_valid(msg.fee, msg.op_share) {
        r == Err::<Pool, PoolError>(PoolError::InvalidShare)
    } else if !bounds_valid(msg.min_stack, msg.max_stack) {
        r == Err::<Pool, PoolError>(PoolError::InvalidBounds)
    } else {
        &&& r matches Ok(pool)
        &&& pool.config == (Config {
            admin: msg.admin,
            operator: msg.operator,
            active: true,
            min_stack: msg.min_stack,
            max_stack: msg.max_stack,
            fee: msg.fee,
            op_share: msg.op_share,
        })
        &&& pool.prng_seed@ == seed
        &&& pool.pool_size == 0
        &&& pool.snip20_address == msg.sscrt_addr
        &&& pool.snip20_hash == msg.sscrt_hash
        &&& pool.storage@ == Map::<Seq<u8>, Pair>::empty()
        &&& pool.total() == 0
        &&& pool.config.wf()
        &&& pool.wf()
    }
}

/// Opens a pool with the given seed: active, empty, configured as `msg` says.
/// A share that is not below the fee, or bounds out of order, are refused.
pub fn open_pool(msg: InitMsg, prng_seed: [u8; 32]) -> (r: Result<Pool, PoolError>)
    ensures
        open_pool_post(msg, prng_seed@, r),
{
    if msg.fee <= msg.op_share {
        return Err(PoolError::InvalidShare);
    }
    if msg.min_stack < 1 || msg.min_stack > msg.max_stack {
        return Err(PoolError::InvalidBounds);
    }
    let config = Config {
        admin: msg.admin,
        operator: msg.operator,
        active: true,
        min_stack: msg.min_stack,
        max_stack: msg.max_stack,
        fee: msg.fee,
        op_share: msg.op_share,
    };
    Ok(
        Pool {
            config,
            prng_seed,
            pool_size: 0,
            snip20_address: msg.sscrt_addr,
            snip20_hash: msg.sscrt_hash,
            storage: TicketStore::new(),
        },
    )
}

/// Opens a pool whose seed is derived from the entropy text of `msg`.
pub fn init(msg: InitMsg) -> (r: Result<Pool, PoolError>)
    ensures
        open_pool_post(msg, initial_seed(msg.entropy@), r),
{
    let prng_seed = seed_from_text(&msg.entropy);
    open_pool(msg, prng_seed)
}

/// What `issue_ticket` does to a pool and returns.
pub open spec fn issue_ticket_post(
    pre: Pool,
    tx_key: Seq<char>,
    seed: Seq<u8>,
    gas: u128,
    post: Pool,
    r: Result<HandleResponse, PoolError>,
) -> bool {
    if pre.config.fee < pre.config.op_share {
        post == pre && r == Err::<HandleResponse, PoolError>(PoolError::Underflow)
    } else if pre.storage@.contains_key(encode_utf8(tx_key)) {
        post == pre && r == Err::<HandleResponse, PoolError>(PoolError::KeyInUse)
    } else if pre.pool_size == u16::MAX {
        post == pre && r == Err::<HandleResponse, PoolError>(PoolError::Overflow)
    } else {
        &&& r matches Ok(resp)
        &&& resp.messages@ == fee_messages(pre.config)
        &&& resp.tx_code matches Some(code)
        &&& code@ == tx_key
        &&& post.config == pre.config
        &&& post.snip20_address == pre.snip20_address
        &&& post.snip20_hash == pre.snip20_hash
        &&& post.prng_seed@ == seed
        &&& post.pool_size == pre.pool_size + 1
        &&& post.storage@ == pre.storage@.insert(encode_utf8(tx_key), Pair { gas })
        &&& post.total() == pre.total() + gas
        &&& post.wf()
    }
}

/// Files a deposit of net amount `gas_amount` under `tx_key`, replaces the
/// seed and splits the fee between admin and operator. An operator share
/// above the fee, a key that is taken, or a full counter, refuses the
/// deposit.
pub fn issue_ticket(pool: &mut Pool, tx_key: String, prng_seed: [u8; 32], gas_amount: u128) -> (r:
    Result<HandleResponse, PoolError>)
    requires
        old(pool).wf(),
    ensures
        issue_ticket_post(*old(pool), tx_key@, prng_seed@, gas_amount, *final(pool), r),
{
    let admin_share: u128 = match pool.config.fee.checked_sub(pool.config.op_share) {
        Some(share) => share,
        None => {
            return Err(PoolError::Underflow);
        },
    };
    if may_load(&pool.storage, tx_key.as_str().as_bytes()).is_some() {
        return Err(PoolError::KeyInUse);
    }
    if pool.pool_size == u16::MAX {
        return Err(PoolError::Overflow);
    }
    let mut msg_list: Vec<Instruction> = Vec::new();
    msg_list.push(
        Instruction {
            kind: InstructionKind::FeeTransfer,
            target: pool.config.admin.clone(),
            amount: admin_share,
        },
    );
    msg_list.push(
        Instruction {
            kind: InstructionKind::FeeTransfer,
            target: pool.config.operator.clone(),
            amount: pool.config.op_share,
        },
    );
    assert(msg_list@ =~= fee_messages(pool.config));
    pool.prng_seed = prng_seed;
    save(&mut pool.storage, tx_key.as_str().as_bytes(), &Pair { gas: gas_amount });
    pool.pool_size = pool.pool_size + 1;
    Ok(HandleResponse { messages: msg_list, tx_code: Some(tx_key) })
}

/// What `seed_wallet` does to a pool and returns.
pub open spec fn seed_wallet_post(
    pre: Pool,
    env: Env,
    gas: u128,
    post: Pool,
    r: Result<HandleResponse, PoolError>,
) -> bool {
    if !pre.config.active {
        post == pre && r == Err::<HandleResponse, PoolError>(PoolError::Inactive)
    } else {
        issue_ticket_post(
            pre,
            ticket_key(pre.prng_seed@, gas),
            next_seed(pre.prng_seed@, gas, env),
            gas,
            post,
            r,
        )
    }
}

/// Accepts a deposit of net amount `gas_amount`: derives the claim key and the
/// next seed from the current seed, then files the deposit.
pub fn seed_wallet(pool: &mut Pool, env: &Env, gas_amount: u128) -> (r: Result<
    HandleResponse,
    PoolError,
>)
    requires
        old(pool).wf(),
    ensures
        seed_wallet_post(*old(pool), *env, gas_amount, *final(pool), r),
{
    if !pool.config.active {
        return Err(PoolError::Inactive);
    }
    let new_data = stored_text(pool.prng_seed.as_slice(), gas_amount, env);
    let hash = sha_256(new_data.as_slice());
    let export_data = export_text(pool.prng_seed.as_slice(), gas_amount);
    let export_hash = sha_256(export_data.as_slice());
    let tx_key_string = hex_encode(export_hash.as_slice());
    issue_ticket(pool, tx_key_string, hash, gas_amount)
}

/// What `receive` does to a pool and returns.
pub open spec fn receive_post(
    pre: Pool,
    env: Env,
    amount: u128,
    msg: ReceivePayload,
    post: Pool,
    r: Result<HandleResponse, PoolError>,
) -> bool {
    if env.sender@ != pre.snip20_address@ {
        post == pre && r == Err::<HandleResponse, PoolError>(PoolError::WrongToken)
    } else if amount <= pre.config.fee {
        post == pre && r == Err::<HandleResponse, PoolError>(PoolError::BelowMinimum)
    } else {
        match msg {
            ReceivePayload::Missing => post == pre && r == Err::<HandleResponse, PoolError>(
                PoolError::DataRequired,
            ),
            ReceivePayload::Unreadable => post == pre && r == Err::<HandleResponse, PoolError>(
                PoolError::MalformedPayload,
            ),
            ReceivePayload::Read(HandleReceiveMsg::ReceiveSeed {  }) => seed_wallet_post(
                pre,
                env,
                (amount - pre.config.fee) as u128,
                post,
                r,
            ),
        }
    }
}

/// Takes a deposit notification. Only the custody token may announce one, the
/// amount must exceed the fee, and the payload must name what to do. The net
/// amount, `amount` less the fee, is then filed.
pub fn receive(
    pool: &mut Pool,
    env: &Env,
    _sender: String,
    _from: String,
    amount: u128,
    msg: ReceivePayload,
) -> (r: Result<HandleResponse, PoolError>)
    requires
        old(pool).wf(),
    ensures
        receive_post(*old(pool), *env, amount, msg, *final(pool), r),
{
    if env.sender != pool.snip20_address {
        return Err(PoolError::WrongToken);
    }
    if amount <= pool.config.fee {
        return Err(PoolError::BelowMinimum);
    }
    let gas_amount: u128 = amount - pool.config.fee;
    match msg {
        ReceivePayload::Read(HandleReceiveMsg::ReceiveSeed {  }) => seed_wallet(pool, env, gas_amount),
        ReceivePayload::Unreadable => Err(PoolError::MalformedPayload),
        ReceivePayload::Missing => Err(PoolError::DataRequired),
    }
}

/// The pool `pre` after the entry under `key` has left it.
pub open spec fn released(pre: Pool, key: Seq<u8>, post: Pool) -> bool {
    &&& post.config == pre.config
    &&& post.snip20_address == pre.snip20_address
    &&& post.snip20_hash == pre.snip20_hash
    &&& post.prng_seed == pre.prng_seed
    &&& post.pool_size == pre.pool_size - 1
    &&& post.storage@ == pre.storage@.remove(key)
    &&& post.total() + pre.storage@[key].gas == pre.total()
    &&& post.wf()
}

/// The instructions that pay a finalized ticket out: the conversion of the
/// amount by the custody token, then the payout to the recipient.
pub open spec fn finalize_messages(token: String, recipient: String, gas: u128) -> Seq<Instruction> {
    seq![
        Instruction { kind: InstructionKind::Convert, target: token, amount: gas },
        Instruction { kind: InstructionKind::Payout, target: recipient, amount: gas },
    ]
}

/// What `finalize_seed` does to a pool and returns.
pub open spec fn finalize_seed_post(
    pre: Pool,
    env: Env,
    tx_key: Seq<char>,
    sender: String,
    post: Pool,
    r: Result<HandleResponse, PoolError>,
) -> bool {
    let key = encode_utf8(tx_key);
    if env.sender@ != pre.config.operator@ {
        post == pre && r == Err::<HandleResponse, PoolError>(PoolError::NotOperator)
    } else if !pre.config.active {
        post == pre && r == Err::<HandleResponse, PoolError>(PoolError::Inactive)
    } else if !pre.storage@.contains_key(key) {
        post == pre && r == Err::<HandleResponse, PoolError>(PoolError::NotFound)
    } else {
        &&& r matches Ok(resp)
        &&& resp.messages@ == finalize_messages(pre.snip20_address, sender, pre.storage@[key].gas)
        &&& resp.tx_code == None::<String>
        &&& released(pre, key, post)
    }
}

/// The operator redeems the ticket `tx_key` in favour of `sender`: the entry
/// leaves the pool, its amount is converted and paid out.
pub fn finalize_seed(pool: &mut Pool, env: &Env, tx_key: String, sender: String) -> (r: Result<
    HandleResponse,
    PoolError,
>)
    requires
        old(pool).wf(),
    ensures
        finalize_seed_post(*old(pool), *env, tx_key@, sender, *final(pool), r),
{
    if env.sender != pool.config.operator {
        return Err(PoolError::NotOperator);
    }
    if !pool.config.active {
        return Err(PoolError::Inactive);
    }
    let tx_data: Pair = match take_by_key(&mut pool.storage, tx_key.as_str().as_bytes()) {
        Ok(pair) => pair,
        Err(e) => {
            return Err(e);
        },
    };
    let mut msg_list: Vec<Instruction> = Vec::new();
    msg_list.push(
        Instruction {
            kind: InstructionKind::Convert,
            target: pool.snip20_address.clone(),
            amount: tx_data.gas,
        },
    );
    msg_list.push(Instruction { kind: InstructionKind::Payout, target: sender, amount: tx_data.gas });
    assert(msg_list@ =~= finalize_messages(pool.snip20_address, sender, tx_data.gas));
    pool.pool_size = pool.pool_size - 1;
    Ok(HandleResponse { messages: msg_list, tx_code: None })
}

/// What `exit_pool` does to a pool and returns.
pub open spec fn exit_pool_post(
    pre: Pool,
    env: Env,
    tx_key: Seq<char>,
    post: Pool,
    r: Result<HandleResponse, PoolError>,
) -> bool {
    let key = encode_utf8(tx_key);
    if !pre.storage@.contains_key(key) {
        post == pre && r == Err::<HandleResponse, PoolError>(PoolError::NotFound)
    } else {
        &&& r matches Ok(resp)
        &&& resp.messages@ == seq![
            Instruction {
                kind: InstructionKind::Payout,
                target: env.sender,
                amount: pre.storage@[key].gas,
            },
        ]
        &&& resp.tx_code == None::<String>
        &&& released(pre, key, post)
    }
}

/// The holder of the ticket `tx_key` takes the deposit back: the entry leaves
/// the pool and its amount is paid out to the caller.
pub fn exit_pool(pool: &mut Pool, env: &Env, tx_key: String) -> (r: Result<HandleResponse, PoolError>)
    requires
        old(pool).wf(),
    ensures
        exit_pool_post(*old(pool), *env, tx_key@, *final(pool), r),
{
    let tx_data: Pair = match take_by_key(&mut pool.storage, tx_key.as_str().as_bytes()) {
        Ok(pair) => pair,
        Err(e) => {
            return Err(e);
        },
    };
    let mut msg_list: Vec<Instruction> = Vec::new();
    msg_list.push(
        Instruction { kind: InstructionKind::Payout, target: env.sender.clone(), amount: tx_data.gas },
    );
    pool.pool_size = pool.pool_size - 1;
    Ok(HandleResponse { messages: msg_list, tx_code: None })
}

/// A response that carries neither instructions nor a claim key.
pub open spec fn is_empty_ok(r: Result<HandleResponse, PoolError>) -> bool {
    &&& r matches Ok(resp)
    &&& resp.messages@ == Seq::<Instruction>::empty()
    &&& resp.tx_code == None::<String>
}

/// What `change_fee` does to a pool and returns.
pub open spec fn change_fee_post(
    pre: Pool,
    env: Env,
    new_fee: u128,
    new_op_share: u128,
    post: Pool,
    r: Result<HandleResponse, PoolError>,
) -> bool {
    if env.sender@ != pre.config.admin@ {
        post == pre && r == Err::<HandleResponse, PoolError>(PoolError::Unauthorized)
    } else if !shares_valid(new_fee, new_op_share) {
        post == pre && r == Err::<HandleResponse, PoolError>(PoolError::InvalidShare)
    } else {
        &&& is_empty_ok(r)
        &&& post == (Pool {
            config: Config { fee: new_fee, op_share: new_op_share, ..pre.config },
            ..pre
        })
    }
}

/// The admin sets the fee and the operator's share of it. The share must stay
/// below the fee.
pub fn change_fee(pool: &mut Pool, env: &Env, new_fee: u128, new_op_share: u128) -> (r: Result<
    HandleResponse,
    PoolError,
>)
    requires
        old(pool).wf(),
    ensures
        change_fee_post(*old(pool), *env, new_fee, new_op_share, *final(pool), r),
        final(pool).wf(),
{
    if pool.config.admin != env.sender {
        return Err(PoolError::Unauthorized);
    }
    if new_fee <= new_op_share {
        return Err(PoolError::InvalidShare);
    }
    pool.config.fee = new_fee;
    pool.config.op_share = new_op_share;
    Ok(HandleResponse::empty())
}

/// What `change_admin` does to a pool and returns.
pub open spec fn change_admin_post(
    pre: Pool,
    env: Env,
    new_admin: String,
    post: Pool,
    r: Result<HandleResponse, PoolError>,
) -> bool {
    if env.sender@ != pre.config.admin@ {
        post == pre && r == Err::<HandleResponse, PoolError>(PoolError::Unauthorized)
    } else {
        &&& is_empty_ok(r)
        &&& post == (Pool { config: Config { admin: new_admin, ..pre.config }, ..pre })
    }
}

/// The admin hands the pool to a new admin.
pub fn change_admin(pool: &mut Pool, env: &Env, new_admin: String) -> (r: Result<
    HandleResponse,
    PoolError,
>)
    requires
        old(pool).wf(),
    ensures
        change_admin_post(*old(pool), *env, new_admin, *final(pool), r),
        final(pool).wf(),
{
    if pool.config.admin != env.sender {
        return Err(PoolError::Unauthorized);
    }
    pool.config.admin = new_admin;
    Ok(HandleResponse::empty())
}

/// What `change_operator` does to a pool and returns.
pub open spec fn change_operator_post(
    pre: Pool,
    env: Env,
    new_operator: String,
    post: Pool,
    r: Result<HandleResponse, PoolError>,
) -> bool {
    if env.sender@ != pre.config.admin@ {
        post == pre && r == Err::<HandleResponse, PoolError>(PoolError::Unauthorized)
    } else {
        &&& is_empty_ok(r)
        &&& post == (Pool { config: Config { operator: new_operator, ..pre.config }, ..pre })
    }
}

/// The admin names a new operator.
pub fn change_operator(pool: &mut Pool, env: &Env, new_operator: String) -> (r: Result<
    HandleResponse,
    PoolError,
>)
    requires
        old(pool).wf(),
    ensures
        change_operator_post(*old(pool), *env, new_operator, *final(pool), r),
        final(pool).wf(),
{
    if pool.config.admin != env.sender {
        return Err(PoolError::Unauthorized);
    }
    pool.config.operator = new_operator;
    Ok(HandleResponse::empty())
}

/// What `handle` does to a pool and returns, command by command.
pub open spec fn handle_post(
    pre: Pool,
    env: Env,
    msg: HandleMsg,
    post: Pool,
    r: Result<HandleResponse, PoolError>,
) -> bool {
    match msg {
        HandleMsg::Receive { sender, from, amount, msg } => receive_post(
            pre,
            env,
            amount,
            msg,
            post,
            r,
        ),
        HandleMsg::FinalizeSeed { tx_key, sender } => finalize_seed_post(
            pre,
            env,
            tx_key@,
            sender,
            post,
            r,
        ),
        HandleMsg::ExitPool { tx_key } => exit_pool_post(pre, env, tx_key@, post, r),
        HandleMsg::ChangeFee { new_fee, new_op_share } => change_fee_post(
            pre,
            env,
            new_fee,
            new_op_share,
            post,
            r,
        ),
        HandleMsg::ChangeAdmin { new_admin } => change_admin_post(pre, env, new_admin, post, r),
        HandleMsg::ChangeOperator { new_operator } => change_operator_post(
            pre,
            env,
            new_operator,
            post,
            r,
        ),
    }
}

/// Carries out one command.
pub fn handle(pool: &mut Pool, env: &Env, msg: HandleMsg) -> (r: Result<HandleResponse, PoolError>)
    requires
        old(pool).wf(),
    ensures
        handle_post(*old(pool), *env, msg, *final(pool), r),
{
    match msg {
        HandleMsg::Receive { sender, from, amount, msg } => receive(
            pool,
            env,
            sender,
            from,
            amount,
            msg,
        ),
        HandleMsg::FinalizeSeed { tx_key, sender } => finalize_seed(pool, env, tx_key, sender),
        HandleMsg::ExitPool { tx_key } => exit_pool(pool, env, tx_key),
        HandleMsg::ChangeFee { new_fee, new_op_share } => change_fee(pool, env, new_fee, new_op_share),
        HandleMsg::ChangeAdmin { new_admin } => change_admin(pool, env, new_admin),
        HandleMsg::ChangeOperator { new_operator } => change_operator(pool, env, new_operator),
    }
}

/// The answer that `query` gives.
pub open spec fn query_answer(pool: Pool, msg: QueryMsg) -> QueryResponse {
    match msg {
        QueryMsg::GetConfig {  } => QueryResponse::Config(config_snapshot(pool.config)),
        QueryMsg::GetExists { tx_key } => QueryResponse::Exists(
            ExistsResponse { exists: pool.storage@.contains_key(encode_utf8(tx_key@)) },
        ),
        QueryMsg::GetPoolSize {  } => QueryResponse::PoolSize(
            PoolSizeResponse { pool_size: pool.pool_size },
        ),
    }
}

/// Answers one read-only query.
pub fn query(pool: &Pool, msg: QueryMsg) -> (r: QueryResponse)
    requires
        pool.wf(),
    ensures
        r == query_answer(*pool, msg),
{
    match msg {
        QueryMsg::GetConfig {  } => QueryResponse::Config(query_config(pool)),
        QueryMsg::GetExists { tx_key } => QueryResponse::Exists(query_tx_exists(pool, tx_key)),
        QueryMsg::GetPoolSize {  } => QueryResponse::PoolSize(query_pool_size(pool)),
    }
}

fn query_config(pool: &Pool) -> (r: ConfigResponse)
    ensures
        r == config_snapshot(pool.config),
{
    ConfigResponse::of(&pool.config)
}

fn query_tx_exists(pool: &Pool, tx_key: String) -> (r: ExistsResponse)
    requires
        pool.wf(),
    ensures
        r == (ExistsResponse { exists: pool.storage@.contains_key(encode_utf8(tx_key@)) }),
{
    let exists: bool = may_load(&pool.storage, tx_key.as_str().as_bytes()).is_some();
    ExistsResponse { exists }
}

fn query_pool_size(pool: &Pool) -> (r: PoolSizeResponse)
    ensures
        r == (PoolSizeResponse { pool_size: pool.pool_size }),
{
    PoolSizeResponse { pool_size: pool.pool_size }
}

/// The net amount that a command brings into the pool if it is accepted.
pub open spec fn deposited(pre: Pool, msg: HandleMsg) -> nat {
    match msg {
        HandleMsg::Receive { sender, from, amount, msg } => if amount > pre.config.fee {
            (amount - pre.config.fee) as nat
        } else {
            0
        },
        _ => 0,
    }
}

/// In a well-formed pool the counter is the number of keys under which an
/// entry is filed.
pub proof fn pool_size_counts_entries(pool: Pool)
    requires
        pool.wf(),
    ensures
        pool.storage@.dom().finite(),
        pool.storage@.dom().len() == pool.pool_size,
{
    lemma_count_is_domain_size(pool.storage.slots@);
}

/// A valid configuration stays valid, whatever the command.
pub proof fn config_stays_valid(
    pre: Pool,
    env: Env,
    msg: HandleMsg,
    post: Pool,
    r: Result<HandleResponse, PoolError>,
)
    requires
        pre.wf(),
        pre.config.wf(),
        handle_post(pre, env, msg, post, r),
    ensures
        post.config.wf(),
{
}

/// An accepted deposit adds exactly `amount - fee` to the pending total and
/// one ticket to the pool.
pub proof fn deposit_adds_net(
    pre: Pool,
    env: Env,
    amount: u128,
    msg: ReceivePayload,
    post: Pool,
    r: Result<HandleResponse, PoolError>,
)
    requires
        pre.wf(),
        receive_post(pre, env, amount, msg, post, r),
        r is Ok,
    ensures
        amount > pre.config.fee,
        post.total() == pre.total() + (amount - pre.config.fee),
        post.pool_size == pre.pool_size + 1,
        post.wf(),
{
}

/// Whatever the command, the pool stays well formed, a refused command
/// changes nothing, and after an accepted one the pending total plus what the
/// response pays out equals the former total plus the net deposit.
pub proof fn custody_is_conserved(
    pre: Pool,
    env: Env,
    msg: HandleMsg,
    post: Pool,
    r: Result<HandleResponse, PoolError>,
)
    requires
        pre.wf(),
        handle_post(pre, env, msg, post, r),
    ensures
        post.wf(),
        r is Err ==> post == pre,
        r matches Ok(resp) ==> post.total() + paid_out(resp.messages@) == pre.total() + deposited(
            pre,
            msg,
        ),
{
    reveal_with_fuel(paid_out, 4);
    if let Ok(resp) = r {
        let m = resp.messages@;
        match msg {
            HandleMsg::Receive { sender, from, amount, msg } => {
                assert(m == fee_messages(pre.config));
                assert(m.drop_last() =~= seq![m[0]]);
                assert(m.drop_last().drop_last() =~= Seq::<Instruction>::empty());
                assert(paid_out(m) == 0);
            },
            HandleMsg::FinalizeSeed { tx_key, sender } => {
                assert(m.drop_last() =~= seq![m[0]]);
                assert(m.drop_last().drop_last() =~= Seq::<Instruction>::empty());
                assert(paid_out(m) == pre.storage@[encode_utf8(tx_key@)].gas);
            },
            HandleMsg::ExitPool { tx_key } => {
                assert(m.drop_last() =~= Seq::<Instruction>::empty());
                assert(paid_out(m) == pre.storage@[encode_utf8(tx_key@)].gas);
            },
            _ => {
                assert(paid_out(m) == 0);
            },
        }
    }
}

/// A claim key exits once: after a deposit that issued the key, an exit with
/// it pays the net amount back, and a further exit finds nothing.
pub proof fn ticket_exits_once(
    before: Pool,
    deposit: Env,
    gas: u128,
    holding: Pool,
    issued: Result<HandleResponse, PoolError>,
    first: Env,
    emptied: Pool,
    r2: Result<HandleResponse, PoolError>,
    second: Env,
    last: Pool,
    r3: Result<HandleResponse, PoolError>,
)
    requires
        before.wf(),
        seed_wallet_post(before, deposit, gas, holding, issued),
        issued is Ok,
        exit_pool_post(holding, first, ticket_key(before.prng_seed@, gas), emptied, r2),
        exit_pool_post(emptied, second, ticket_key(before.prng_seed@, gas), last, r3),
    ensures
        issued->Ok_0.tx_code matches Some(code) && code@ == ticket_key(before.prng_seed@, gas),
        r2 matches Ok(resp) && resp.messages@ == seq![
            Instruction { kind: InstructionKind::Payout, target: first.sender, amount: gas },
        ],
        emptied.storage@ == before.storage@,
        emptied.pool_size == before.pool_size,
        r3 == Err::<HandleResponse, PoolError>(PoolError::NotFound),
        last == emptied,
{
    let key = encode_utf8(ticket_key(before.prng_seed@, gas));
    assert(holding.storage@.contains_key(key));
    assert(emptied.storage@ =~= before.storage@);
}

/// A claim key redeems once: after a deposit that issued the key, the
/// operator's redemption converts and pays out the net amount, and a further
/// redemption finds nothing.
pub proof fn ticket_redeems_once(
    before: Pool,
    deposit: Env,
    gas: u128,
    holding: Pool,
    issued: Result<HandleResponse, PoolError>,
    first: Env,
    payee: String,
    emptied: Pool,
    r2: Result<HandleResponse, PoolError>,
    second: Env,
    last: Pool,
    r3: Result<HandleResponse, PoolError>,
)
    requires
        before.wf(),
        seed_wallet_post(before, deposit, gas, holding, issued),
        issued is Ok,
        first.sender@ == before.config.operator@,
        second.sender@ == before.config.operator@,
        finalize_seed_post(holding, first, ticket_key(before.prng_seed@, gas), payee, emptied, r2),
        finalize_seed_post(emptied, second, ticket_key(before.prng_seed@, gas), payee, last, r3),
    ensures
        r2 matches Ok(resp) && resp.messages@ == finalize_messages(before.snip20_address, payee, gas),
        emptied.storage@ == before.storage@,
        emptied.pool_size == before.pool_size,
        r3 == Err::<HandleResponse, PoolError>(PoolError::NotFound),
        last == emptied,
{
    let key = encode_utf8(ticket_key(before.prng_seed@, gas));
    assert(holding.storage@.contains_key(key));
    assert(emptied.storage@ =~= before.storage@);
}

} // verus!
