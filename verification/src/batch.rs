//! The batch pool: deposits queue up in a ledger and are paid out together
//! once the queue reaches a threshold that is drawn anew after every flush.

use vstd::prelude::*;
use crate::entropy::{entropy_context, initial_seed, new_entropy, prng_bytes, seed_from_text};
use crate::env::Env;
use crate::error::PoolError;
use crate::ledger::{
    Ledger, PendingEntry, entries_of, entries_of_others, entries_total, lemma_filter_members,
    lemma_total_push, pays,
};
use crate::msg::{
    ConfigResponse, HandleResponse, InitMsg, Instruction, InstructionKind, config_snapshot, paid_out,
    payout_count,
};
use crate::state::{Config, bounds_valid, shares_valid};
use crate::threshold::{
    clamp_threshold, clamped, next_threshold, threshold_for, threshold_within_bounds,
};

verus! {

/// The state of a batch pool.
#[derive(Clone, Debug, PartialEq, Eq)]
pub struct BatchPool {
    pub config: Config,
    /// The entropy seed. Every flush replaces it.
    pub prng_seed: [u8; 32],
    /// The threshold: the ledger size that triggers the next flush.
    pub stack_size: u8,
    /// Address of the custody token, the only announcer of deposits.
    pub snip20_address: String,
    /// The pending entries.
    pub stack: Ledger,
}

impl BatchPool {
    /// The ledger's total is right, the bounds are ordered and positive and
    /// the threshold lies within them.
    pub open spec fn wf(&self) -> bool {
        &&& self.stack.wf()
        &&& bounds_valid(self.config.min_stack, self.config.max_stack)
        &&& self.config.min_stack <= self.stack_size <= self.config.max_stack
    }

    /// The sum of all pending amounts.
    pub open spec fn total(&self) -> nat {
        self.stack.total as nat
    }

    /// Whether this pool is well formed.
    pub fn is_valid(&self) -> (r: bool)
        ensures
            r == self.wf(),
    {
        self.stack.is_valid() && 1 <= self.config.min_stack && self.config.min_stack
            <= self.stack_size && self.stack_size <= self.config.max_stack
    }

    /// The snapshot of the configuration that a query shows.
    pub fn query_config(&self) -> (r: ConfigResponse)
        ensures
            r == config_snapshot(self.config),
    {
        ConfigResponse::of(&self.config)
    }

    /// The number of pending entries.
    pub fn query_pool_size(&self) -> (r: usize)
        ensures
            r == self.stack.size(),
    {
        self.stack.len()
    }
}

/// The payout instruction of an entry.
pub open spec fn payout_of(e: PendingEntry) -> Instruction {
    Instruction { kind: InstructionKind::Payout, target: e.recipient, amount: e.amount }
}

/// One payout instruction per entry, in the entries' order.
pub open spec fn payouts(s: Seq<PendingEntry>) -> Seq<Instruction> {
    s.map_values(|e: PendingEntry| payout_of(e))
}

/// The batch of a flush: one conversion of the whole amount by the custody
/// token, then one payout per entry.
pub open spec fn flush_messages(token: String, total: u128, s: Seq<PendingEntry>) -> Seq<
    Instruction,
> {
    seq![Instruction { kind: InstructionKind::Convert, target: token, amount: total }] + payouts(s)
}

/// The fee instruction of a deposit: the whole fee goes to the admin.
pub open spec fn fee_message(config: Config) -> Instruction {
    Instruction { kind: InstructionKind::FeeTransfer, target: config.admin, amount: config.fee }
}

/// The value that the entropy generator yields for a call under `seed`, with
/// no entropy beyond block height, block time and caller.
pub open spec fn draw(seed: Seq<u8>, env: Env) -> Seq<u8> {
    prng_bytes(seed, entropy_context(&env, Seq::<u8>::empty()))
}

/// The pool after a flush under the draw `r`: the ledger is empty, the draw is
/// the new seed and selects the new threshold, and nothing else has changed.
pub open spec fn after_flush(pre: BatchPool, r: Seq<u8>, post: BatchPool) -> bool {
    &&& post.config == pre.config
    &&& post.snip20_address == pre.snip20_address
    &&& post.prng_seed@ == r
    &&& post.stack_size == threshold_for(pre.config.min_stack, pre.config.max_stack, r)
    &&& post.stack.entries@ == Seq::<PendingEntry>::empty()
    &&& post.stack.total == 0
    &&& post.wf()
}

/// What two batches pay out together is the sum of what each pays out, and
/// likewise for the number of their payouts.
pub proof fn lemma_paid_out_concat(a: Seq<Instruction>, b: Seq<Instruction>)
    ensures
        paid_out(a + b) == paid_out(a) + paid_out(b),
        payout_count(a + b) == payout_count(a) + payout_count(b),
    decreases b.len(),
{
    if b.len() == 0 {
        assert(a + b =~= a);
    } else {
        lemma_paid_out_concat(a, b.drop_last());
        assert((a + b).drop_last() =~= a + b.drop_last());
        assert((a + b).last() == b.last());
    }
}

/// The payouts of a list of entries pay out the entries' total, one
/// instruction per entry.
pub proof fn lemma_payouts_total(s: Seq<PendingEntry>)
    ensures
        paid_out(payouts(s)) == entries_total(s),
        payout_count(payouts(s)) == s.len(),
    decreases s.len(),
{
    if s.len() > 0 {
        lemma_payouts_total(s.drop_last());
        assert(payouts(s).drop_last() =~= payouts(s.drop_last()));
        assert(payouts(s).last() == payout_of(s.last()));
    }
}

fn push_payouts(msgs: &mut Vec<Instruction>, entries: &Vec<PendingEntry>)
    ensures
        final(msgs)@ == old(msgs)@ + payouts(entries@),
{
    let mut i: usize = 0;
    assert(msgs@ =~= old(msgs)@ + payouts(entries@.take(0)));
    while i < entries.len()
        invariant
            i <= entries@.len(),
            msgs@ == old(msgs)@ + payouts(entries@.take(i as int)),
        decreases entries@.len() - i,
    {
        msgs.push(
            Instruction {
                kind: InstructionKind::Payout,
                target: entries[i].recipient.clone(),
                amount: entries[i].amount,
            },
        );
        assert(msgs@ =~= old(msgs)@ + payouts(entries@.take(i + 1)));
        i += 1;
    }
    assert(entries@.take(entries@.len() as int) =~= entries@);
}

/// What `with_draw` returns for a message and a draw.
pub open spec fn with_draw_post(msg: InitMsg, r: Seq<u8>, res: Result<BatchPool, PoolError>) -> bool {
    if !shares_valid(msg.fee, msg.op_share) {
        res == Err::<BatchPool, PoolError>(PoolError::InvalidShare)
    } else if !bounds_valid(msg.min_stack, msg.max_stack) {
        res == Err::<BatchPool, PoolError>(PoolError::InvalidBounds)
    } else {
        &&& res matches Ok(pool)
        &&& pool.config == (Config {
            admin: msg.admin,
            operator: msg.operator,
            active: true,
            min_stack: msg.min_stack,
            max_stack: msg.max_stack,
            fee: msg.fee,
            op_share: msg.op_share,
        })
        &&& pool.prng_seed@ == r
        &&& pool.stack_size == threshold_for(msg.min_stack, msg.max_stack, r)
        &&& pool.snip20_address == msg.sscrt_addr
        &&& pool.stack.entries@ == Seq::<PendingEntry>::empty()
        &&& pool.stack.total == 0
        &&& pool.config.wf()
        &&& pool.wf()
    }
}

/// What `deposit` does to a pool and returns.
pub open spec fn deposit_post(
    pre: BatchPool,
    env: Env,
    amount: u128,
    recipient: Option<String>,
    from: Option<String>,
    post: BatchPool,
    r: Result<HandleResponse, PoolError>,
) -> bool {
    if env.sender@ != pre.snip20_address@ {
        post == pre && r == Err::<HandleResponse, PoolError>(PoolError::WrongToken)
    } else if amount <= pre.config.fee {
        post == pre && r == Err::<HandleResponse, PoolError>(PoolError::BelowMinimum)
    } else if recipient is None {
        post == pre && r == Err::<HandleResponse, PoolError>(PoolError::DataRequired)
    } else if !pre.config.active {
        post == pre && r == Err::<HandleResponse, PoolError>(PoolError::Inactive)
    } else if pre.stack.total + (amount - pre.config.fee) > u128::MAX {
        post == pre && r == Err::<HandleResponse, PoolError>(PoolError::Overflow)
    } else {
        let net = (amount - pre.config.fee) as u128;
        let entry = PendingEntry { recipient: recipient->Some_0, sender: from, amount: net };
        let queued = pre.stack.entries@.push(entry);
        let held = (pre.stack.total + net) as u128;
        &&& r matches Ok(resp)
        &&& resp.tx_code == None::<String>
        &&& if queued.len() >= pre.stack_size {
            &&& resp.messages@ == seq![fee_message(pre.config)] + flush_messages(
                pre.snip20_address,
                held,
                queued,
            )
            &&& after_flush(pre, draw(pre.prng_seed@, env), post)
        } else {
            &&& resp.messages@ == seq![fee_message(pre.config)]
            &&& post.config == pre.config
            &&& post.snip20_address == pre.snip20_address
            &&& post.prng_seed == pre.prng_seed
            &&& post.stack_size == pre.stack_size
            &&& post.stack.entries@ == queued
            &&& post.stack.total == held
            &&& post.wf()
        }
    }
}

/// What `exit` does to a pool and returns.
pub open spec fn exit_post(pre: BatchPool, env: Env, post: BatchPool, resp: HandleResponse) -> bool {
    &&& resp.messages@ == payouts(entries_of(pre.stack.entries@, env.sender@))
    &&& resp.tx_code == None::<String>
    &&& post.config == pre.config
    &&& post.snip20_address == pre.snip20_address
    &&& post.prng_seed == pre.prng_seed
    &&& post.stack_size == pre.stack_size
    &&& post.stack.entries@ == entries_of_others(pre.stack.entries@, env.sender@)
    &&& post.stack.total + entries_total(entries_of(pre.stack.entries@, env.sender@))
        == pre.stack.total
    &&& post.wf()
}

/// What `force_flush` does to a pool and returns.
pub open spec fn force_flush_post(
    pre: BatchPool,
    env: Env,
    post: BatchPool,
    r: Result<HandleResponse, PoolError>,
) -> bool {
    if env.sender@ != pre.config.admin@ {
        post == pre && r == Err::<HandleResponse, PoolError>(PoolError::Unauthorized)
    } else if !pre.config.active {
        post == pre && r == Err::<HandleResponse, PoolError>(PoolError::Inactive)
    } else {
        &&& r matches Ok(resp)
        &&& resp.tx_code == None::<String>
        &&& resp.messages@ == flush_messages(
            pre.snip20_address,
            pre.stack.total,
            pre.stack.entries@,
        )
        &&& after_flush(pre, draw(pre.prng_seed@, env), post)
    }
}

/// What `change_stack_bounds` does to a pool and returns.
pub open spec fn change_stack_bounds_post(
    pre: BatchPool,
    env: Env,
    new_min: u8,
    new_max: u8,
    post: BatchPool,
    r: Result<HandleResponse, PoolError>,
) -> bool {
    if env.sender@ != pre.config.admin@ {
        post == pre && r == Err::<HandleResponse, PoolError>(PoolError::Unauthorized)
    } else if !bounds_valid(new_min, new_max) {
        post == pre && r == Err::<HandleResponse, PoolError>(PoolError::InvalidBounds)
    } else {
        &&& r matches Ok(resp)
        &&& resp.messages@ == Seq::<Instruction>::empty()
        &&& resp.tx_code == None::<String>
        &&& post == (BatchPool {
            config: Config { min_stack: new_min, max_stack: new_max, ..pre.config },
            stack_size: clamped(pre.stack_size, new_min, new_max),
            ..pre
        })
    }
}

/// What `change_fee` does to a pool and returns.
pub open spec fn change_fee_post(
    pre: BatchPool,
    env: Env,
    new_fee: u128,
    new_op_share: u128,
    post: BatchPool,
    r: Result<HandleResponse, PoolError>,
) -> bool {
    if env.sender@ != pre.config.admin@ {
        post == pre && r == Err::<HandleResponse, PoolError>(PoolError::Unauthorized)
    } else if !shares_valid(new_fee, new_op_share) {
        post == pre && r == Err::<HandleResponse, PoolError>(PoolError::InvalidShare)
    } else {
        &&& r matches Ok(resp)
        &&& resp.messages@ == Seq::<Instruction>::empty()
        &&& resp.tx_code == None::<String>
        &&& post == (BatchPool {
            config: Config { fee: new_fee, op_share: new_op_share, ..pre.config },
            ..pre
        })
    }
}

/// What `change_admin` does to a pool and returns.
pub open spec fn change_admin_post(
    pre: BatchPool,
    env: Env,
    new_admin: String,
    post: BatchPool,
    r: Result<HandleResponse, PoolError>,
) -> bool {
    if env.sender@ != pre.config.admin@ {
        post == pre && r == Err::<HandleResponse, PoolError>(PoolError::Unauthorized)
    } else {
        &&& r matches Ok(resp)
        &&& resp.messages@ == Seq::<Instruction>::empty()
        &&& resp.tx_code == None::<String>
        &&& post == (BatchPool { config: Config { admin: new_admin, ..pre.config }, ..pre })
    }
}

impl BatchPool {
    /// Opens a pool under the draw `r`: active, empty, configured as `msg`
    /// says, with `r` as its seed and the threshold that `r` selects. A share
    /// that is not below the fee, or bounds out of order, are refused.
    pub fn with_draw(msg: InitMsg, r: [u8; 32]) -> (res: Result<BatchPool, PoolError>)
        ensures
            with_draw_post(msg, r@, res),
    {
        if msg.fee <= msg.op_share {
            return Err(PoolError::InvalidShare);
        }
        if msg.min_stack < 1 || msg.min_stack > msg.max_stack {
            return Err(PoolError::InvalidBounds);
        }
        let stack_size = next_threshold(msg.min_stack, msg.max_stack, r.as_slice());
        let config = Config {
            admin: msg.admin,
            operator: msg.operator,
            active: true,
            min_stack: msg.min_stack,
            max_stack: msg.max_stack,
            fee: msg.fee,
            op_share: msg.op_share,
        };
        Ok(
            BatchPool {
                config,
                prng_seed: r,
                stack_size,
                snip20_address: msg.sscrt_addr,
                stack: Ledger::new(),
            },
        )
    }

    /// Opens a pool during the call `env`. The first draw is made under the
    /// seed that the entropy text of `msg` gives.
    pub fn open(env: &Env, msg: InitMsg) -> (res: Result<BatchPool, PoolError>)
        ensures
            with_draw_post(msg, draw(initial_seed(msg.entropy@), *env), res),
    {
        let seed = seed_from_text(&msg.entropy);
        let extra: Vec<u8> = Vec::new();
        let r = new_entropy(env, seed.as_slice(), extra.as_slice());
        BatchPool::with_draw(msg, r)
    }

    /// Flushes under the draw `r`: drains the ledger, emits the conversion of
    /// the whole amount and one payout per entry, stores `r` as the seed and
    /// sets the threshold that `r` selects.
    pub fn flush_with_draw(&mut self, r: [u8; 32]) -> (msgs: Vec<Instruction>)
        requires
            old(self).wf(),
        ensures
            msgs@ == flush_messages(
                old(self).snip20_address,
                old(self).stack.total,
                old(self).stack.entries@,
            ),
            after_flush(*old(self), r@, *final(self)),
    {
        let total: u128 = self.stack.total;
        let drained = self.stack.flush_all();
        let mut msgs: Vec<Instruction> = Vec::new();
        msgs.push(
            Instruction {
                kind: InstructionKind::Convert,
                target: self.snip20_address.clone(),
                amount: total,
            },
        );
        push_payouts(&mut msgs, &drained);
        self.prng_seed = r;
        self.stack_size = next_threshold(self.config.min_stack, self.config.max_stack, r.as_slice());
        msgs
    }

    /// Flushes during the call `env`: makes the draw and flushes under it.
    pub fn flush(&mut self, env: &Env) -> (msgs: Vec<Instruction>)
        requires
            old(self).wf(),
        ensures
            msgs@ == flush_messages(
                old(self).snip20_address,
                old(self).stack.total,
                old(self).stack.entries@,
            ),
            after_flush(*old(self), draw(old(self).prng_seed@, *env), *final(self)),
    {
        let extra: Vec<u8> = Vec::new();
        let r = new_entropy(env, self.prng_seed.as_slice(), extra.as_slice());
        self.flush_with_draw(r)
    }

    /// Takes a deposit of `amount` for `recipient`. Only the custody token
    /// may announce one, the amount must exceed the fee, a recipient must be
    /// named and the pool must be active. The fee goes to the admin and the
    /// net amount joins the ledger; if the ledger has then reached the
    /// threshold, it is flushed.
    pub fn deposit(
        &mut self,
        env: &Env,
        amount: u128,
        recipient: Option<String>,
        from: Option<String>,
    ) -> (r: Result<HandleResponse, PoolError>)
        requires
            old(self).wf(),
        ensures
            deposit_post(*old(self), *env, amount, recipient, from, *final(self), r),
    {
        if env.sender != self.snip20_address {
            return Err(PoolError::WrongToken);
        }
        if amount <= self.config.fee {
            return Err(PoolError::BelowMinimum);
        }
        let net: u128 = amount - self.config.fee;
        let to: String = match recipient {
            Some(to) => to,
            None => {
                return Err(PoolError::DataRequired);
            },
        };
        if !self.config.active {
            return Err(PoolError::Inactive);
        }
        let entry = PendingEntry { recipient: to, sender: from, amount: net };
        match self.stack.append(entry) {
            Ok(()) => {},
            Err(e) => {
                return Err(e);
            },
        }
        let mut msg_list: Vec<Instruction> = Vec::new();
        msg_list.push(
            Instruction {
                kind: InstructionKind::FeeTransfer,
                target: self.config.admin.clone(),
                amount: self.config.fee,
            },
        );
        if self.stack.len() >= self.stack_size as usize {
            let mut batch = self.flush(env);
            let ghost emitted = batch@;
            msg_list.append(&mut batch);
            assert(msg_list@ =~= seq![fee_message(old(self).config)] + emitted);
        } else {
            assert(msg_list@ =~= seq![fee_message(old(self).config)]);
        }
        Ok(HandleResponse { messages: msg_list, tx_code: None })
    }

    /// The caller takes back every pending entry that names the caller as
    /// recipient: one payout per entry. Where none does, nothing happens.
    pub fn exit(&mut self, env: &Env) -> (resp: HandleResponse)
        requires
            old(self).wf(),
        ensures
            exit_post(*old(self), *env, *final(self), resp),
    {
        let removed = self.stack.remove_matching(&env.sender);
        let mut msg_list: Vec<Instruction> = Vec::new();
        push_payouts(&mut msg_list, &removed);
        assert(msg_list@ =~= payouts(removed@));
        HandleResponse { messages: msg_list, tx_code: None }
    }

    /// The admin flushes the ledger, whatever its size.
    pub fn force_flush(&mut self, env: &Env) -> (r: Result<HandleResponse, PoolError>)
        requires
            old(self).wf(),
        ensures
            force_flush_post(*old(self), *env, *final(self), r),
    {
        if self.config.admin != env.sender {
            return Err(PoolError::Unauthorized);
        }
        if !self.config.active {
            return Err(PoolError::Inactive);
        }
        let msgs = self.flush(env);
        Ok(HandleResponse { messages: msgs, tx_code: None })
    }

    /// The admin sets the bounds of the threshold. The current threshold moves
    /// into the new bounds; the ledger is not looked at.
    pub fn change_stack_bounds(&mut self, env: &Env, new_min: u8, new_max: u8) -> (r: Result<
        HandleResponse,
        PoolError,
    >)
        requires
            old(self).wf(),
        ensures
            change_stack_bounds_post(*old(self), *env, new_min, new_max, *final(self), r),
            final(self).wf(),
    {
        if self.config.admin != env.sender {
            return Err(PoolError::Unauthorized);
        }
        if new_min < 1 || new_min > new_max {
            return Err(PoolError::InvalidBounds);
        }
        self.config.min_stack = new_min;
        self.config.max_stack = new_max;
        self.stack_size = clamp_threshold(self.stack_size, new_min, new_max);
        Ok(HandleResponse::empty())
    }

    /// The admin fixes the threshold at `new_size`: both bounds and the
    /// current threshold take that value.
    pub fn change_stack_size(&mut self, env: &Env, new_size: u8) -> (r: Result<
        HandleResponse,
        PoolError,
    >)
        requires
            old(self).wf(),
        ensures
            change_stack_bounds_post(*old(self), *env, new_size, new_size, *final(self), r),
            r is Ok ==> final(self).stack_size == new_size,
            final(self).wf(),
    {
        self.change_stack_bounds(env, new_size, new_size)
    }

    /// The admin sets the fee and the operator's share of it. The share must
    /// stay below the fee.
    pub fn change_fee(&mut self, env: &Env, new_fee: u128, new_op_share: u128) -> (r: Result<
        HandleResponse,
        PoolError,
    >)
        requires
            old(self).wf(),
        ensures
            change_fee_post(*old(self), *env, new_fee, new_op_share, *final(self), r),
            final(self).wf(),
    {
        if self.config.admin != env.sender {
            return Err(PoolError::Unauthorized);
        }
        if new_fee <= new_op_share {
            return Err(PoolError::InvalidShare);
        }
        self.config.fee = new_fee;
        self.config.op_share = new_op_share;
        Ok(HandleResponse::empty())
    }

    /// The admin hands the pool to a new admin.
    pub fn change_admin(&mut self, env: &Env, new_admin: String) -> (r: Result<
        HandleResponse,
        PoolError,
    >)
        requires
            old(self).wf(),
        ensures
            change_admin_post(*old(self), *env, new_admin, *final(self), r),
            final(self).wf(),
    {
        if self.config.admin != env.sender {
            return Err(PoolError::Unauthorized);
        }
        self.config.admin = new_admin;
        Ok(HandleResponse::empty())
    }
}

/// The net amount that a deposit brings into the pool.
pub open spec fn net_of(pre: BatchPool, amount: u128) -> nat {
    if amount > pre.config.fee {
        (amount - pre.config.fee) as nat
    } else {
        0
    }
}

/// A refused deposit changes nothing. After an accepted one the pending
/// total plus what the response pays out equals the former total plus the net
/// amount, `amount` less the fee.
pub proof fn deposit_conserves_custody(
    pre: BatchPool,
    env: Env,
    amount: u128,
    recipient: Option<String>,
    from: Option<String>,
    post: BatchPool,
    r: Result<HandleResponse, PoolError>,
)
    requires
        pre.wf(),
        deposit_post(pre, env, amount, recipient, from, post, r),
    ensures
        post.wf(),
        r is Err ==> post == pre,
        r matches Ok(resp) ==> post.total() + paid_out(resp.messages@) == pre.total() + net_of(
            pre,
            amount,
        ),
{
    if let Ok(resp) = r {
        let net = (amount - pre.config.fee) as u128;
        let entry = PendingEntry { recipient: recipient->Some_0, sender: from, amount: net };
        let queued = pre.stack.entries@.push(entry);
        let held = (pre.stack.total + net) as u128;
        let fee = seq![fee_message(pre.config)];
        reveal_with_fuel(paid_out, 2);
        assert(fee.drop_last() =~= Seq::<Instruction>::empty());
        assert(paid_out(fee) == 0);
        lemma_total_push(pre.stack.entries@, entry);
        if queued.len() >= pre.stack_size {
            let convert = seq![
                Instruction {
                    kind: InstructionKind::Convert,
                    target: pre.snip20_address,
                    amount: held,
                },
            ];
            assert(convert.drop_last() =~= Seq::<Instruction>::empty());
            assert(paid_out(convert) == 0);
            lemma_payouts_total(queued);
            lemma_paid_out_concat(convert, payouts(queued));
            lemma_paid_out_concat(fee, flush_messages(pre.snip20_address, held, queued));
        }
    }
}

/// A deposit that brings the ledger to the threshold flushes once: the
/// ledger ends empty and the response holds the fee instruction, one
/// conversion and one payout for every entry that was pending, the new one
/// included. A deposit that stays below the threshold pays nothing out.
pub proof fn crossing_deposit_flushes_once(
    pre: BatchPool,
    env: Env,
    amount: u128,
    recipient: Option<String>,
    from: Option<String>,
    post: BatchPool,
    r: Result<HandleResponse, PoolError>,
)
    requires
        pre.wf(),
        deposit_post(pre, env, amount, recipient, from, post, r),
        r is Ok,
    ensures
        pre.stack.size() + 1 >= pre.stack_size ==> {
            &&& post.stack.size() == 0
            &&& post.total() == 0
            &&& r->Ok_0.messages@.len() == pre.stack.size() + 3
            &&& r->Ok_0.messages@[0].kind == InstructionKind::FeeTransfer
            &&& r->Ok_0.messages@[1].kind == InstructionKind::Convert
            &&& r->Ok_0.messages@[1].amount == pre.total() + net_of(pre, amount)
            &&& payout_count(r->Ok_0.messages@) == pre.stack.size() + 1
        },
        pre.stack.size() + 1 < pre.stack_size ==> {
            &&& post.stack.size() == pre.stack.size() + 1
            &&& payout_count(r->Ok_0.messages@) == 0
        },
{
    let resp = r->Ok_0;
    let net = (amount - pre.config.fee) as u128;
    let entry = PendingEntry { recipient: recipient->Some_0, sender: from, amount: net };
    let queued = pre.stack.entries@.push(entry);
    let held = (pre.stack.total + net) as u128;
    let fee = seq![fee_message(pre.config)];
    reveal_with_fuel(payout_count, 2);
    assert(fee.drop_last() =~= Seq::<Instruction>::empty());
    assert(payout_count(fee) == 0);
    if queued.len() >= pre.stack_size {
        let convert = seq![
            Instruction { kind: InstructionKind::Convert, target: pre.snip20_address, amount: held },
        ];
        assert(convert.drop_last() =~= Seq::<Instruction>::empty());
        assert(payout_count(convert) == 0);
        lemma_payouts_total(queued);
        lemma_paid_out_concat(convert, payouts(queued));
        lemma_paid_out_concat(fee, flush_messages(pre.snip20_address, held, queued));
    }
}

/// After a flush, natural or forced, the threshold lies within the
/// configured bounds, and equals them where they are equal.
pub proof fn reseed_within_bounds(pre: BatchPool, r: Seq<u8>, post: BatchPool)
    requires
        pre.wf(),
        after_flush(pre, r, post),
    ensures
        pre.config.min_stack <= post.stack_size <= pre.config.max_stack,
        pre.config.min_stack == pre.config.max_stack ==> post.stack_size == pre.config.min_stack,
{
    threshold_within_bounds(pre.config.min_stack, pre.config.max_stack, r);
}

/// An exit takes out the caller's entries and no others: every entry of
/// another recipient is still pending, every entry still pending is one of
/// before and names another recipient, every instruction is a payout to the
/// caller, and what is paid out is what left the ledger.
pub proof fn exit_keeps_others(pre: BatchPool, env: Env, post: BatchPool, resp: HandleResponse)
    requires
        pre.wf(),
        exit_post(pre, env, post, resp),
    ensures
        forall|i: int|
            0 <= i < pre.stack.entries@.len() && !pays(#[trigger] pre.stack.entries@[i], env.sender@)
                ==> post.stack.entries@.contains(pre.stack.entries@[i]),
        forall|j: int|
            0 <= j < post.stack.entries@.len() ==> !pays(
                #[trigger] post.stack.entries@[j],
                env.sender@,
            ) && pre.stack.entries@.contains(post.stack.entries@[j]),
        forall|j: int|
            0 <= j < resp.messages@.len() ==> (#[trigger] resp.messages@[j]).kind
                == InstructionKind::Payout && resp.messages@[j].target@ == env.sender@,
        post.total() + paid_out(resp.messages@) == pre.total(),
{
    let all = pre.stack.entries@;
    let mine = entries_of(all, env.sender@);
    let others = entries_of_others(all, env.sender@);
    lemma_filter_members(all, |e: PendingEntry| !pays(e, env.sender@));
    lemma_filter_members(all, |e: PendingEntry| pays(e, env.sender@));
    assert forall|j: int| 0 <= j < resp.messages@.len() implies (#[trigger] resp.messages@[j]).kind
        == InstructionKind::Payout && resp.messages@[j].target@ == env.sender@ by {
        assert(resp.messages@[j] == payout_of(mine[j]));
    }
    lemma_payouts_total(mine);
}

/// The entries that an exit leaves pending are exactly what a later forced
/// flush pays out.
pub proof fn others_flush_after_exit(
    pre: BatchPool,
    exit: Env,
    mid: BatchPool,
    resp: HandleResponse,
    flush: Env,
    post: BatchPool,
    r: Result<HandleResponse, PoolError>,
)
    requires
        pre.wf(),
        exit_post(pre, exit, mid, resp),
        force_flush_post(mid, flush, post, r),
        r is Ok,
    ensures
        r->Ok_0.messages@ == flush_messages(
            pre.snip20_address,
            mid.stack.total,
            entries_of_others(pre.stack.entries@, exit.sender@),
        ),
        paid_out(r->Ok_0.messages@) + paid_out(resp.messages@) == pre.total(),
        post.total() == 0,
{
    let others = entries_of_others(pre.stack.entries@, exit.sender@);
    let convert = seq![
        Instruction {
            kind: InstructionKind::Convert,
            target: pre.snip20_address,
            amount: mid.stack.total,
        },
    ];
    reveal_with_fuel(paid_out, 2);
    assert(convert.drop_last() =~= Seq::<Instruction>::empty());
    lemma_payouts_total(others);
    lemma_payouts_total(entries_of(pre.stack.entries@, exit.sender@));
    lemma_paid_out_concat(convert, payouts(others));
}

/// The commands of the batch pool.
#[derive(Clone, Debug, PartialEq, Eq)]
pub enum BatchMsg {
    /// A deposit, announced by the custody token.
    Deposit { amount: u128, recipient: Option<String>, from: Option<String> },
    /// The caller takes back what is pending for the caller.
    Exit {  },
    ForceFlush {  },
    ChangeFee { new_fee: u128, new_op_share: u128 },
    ChangeAdmin { new_admin: String },
    ChangeStackBounds { new_min: u8, new_max: u8 },
    ChangeStackSize { new_size: u8 },
}

/// What `handle` does to a pool and returns, command by command.
pub open spec fn handle_post(
    pre: BatchPool,
    env: Env,
    msg: BatchMsg,
    post: BatchPool,
    r: Result<HandleResponse, PoolError>,
) -> bool {
    match msg {
        BatchMsg::Deposit { amount, recipient, from } => deposit_post(
            pre,
            env,
            amount,
            recipient,
            from,
            post,
            r,
        ),
        BatchMsg::Exit {  } => r matches Ok(resp) && exit_post(pre, env, post, resp),
        BatchMsg::ForceFlush {  } => force_flush_post(pre, env, post, r),
        BatchMsg::ChangeFee { new_fee, new_op_share } => change_fee_post(
            pre,
            env,
            new_fee,
            new_op_share,
            post,
            r,
        ),
        BatchMsg::ChangeAdmin { new_admin } => change_admin_post(pre, env, new_admin, post, r),
        BatchMsg::ChangeStackBounds { new_min, new_max } => change_stack_bounds_post(
            pre,
            env,
            new_min,
            new_max,
            post,
            r,
        ),
        BatchMsg::ChangeStackSize { new_size } => change_stack_bounds_post(
            pre,
            env,
            new_size,
            new_size,
            post,
            r,
        ),
    }
}

impl BatchPool {
    /// Carries out one command.
    pub fn handle(&mut self, env: &Env, msg: BatchMsg) -> (r: Result<HandleResponse, PoolError>)
        requires
            old(self).wf(),
        ensures
            handle_post(*old(self), *env, msg, *final(self), r),
    {
        match msg {
            BatchMsg::Deposit { amount, recipient, from } => self.deposit(env, amount, recipient, from),
            BatchMsg::Exit {  } => Ok(self.exit(env)),
            BatchMsg::ForceFlush {  } => self.force_flush(env),
            BatchMsg::ChangeFee { new_fee, new_op_share } => self.change_fee(
                env,
                new_fee,
                new_op_share,
            ),
            BatchMsg::ChangeAdmin { new_admin } => self.change_admin(env, new_admin),
            BatchMsg::ChangeStackBounds { new_min, new_max } => self.change_stack_bounds(
                env,
                new_min,
                new_max,
            ),
            BatchMsg::ChangeStackSize { new_size } => self.change_stack_size(env, new_size),
        }
    }
}

/// The net amount that a command brings into the pool if it is accepted.
pub open spec fn deposited(pre: BatchPool, msg: BatchMsg) -> nat {
    match msg {
        BatchMsg::Deposit { amount, recipient, from } => net_of(pre, amount),
        _ => 0,
    }
}

/// A valid configuration stays valid, whatever the command.
pub proof fn config_stays_valid(
    pre: BatchPool,
    env: Env,
    msg: BatchMsg,
    post: BatchPool,
    r: Result<HandleResponse, PoolError>,
)
    requires
        pre.wf(),
        pre.config.wf(),
        handle_post(pre, env, msg, post, r),
    ensures
        post.config.wf(),
{
}

/// Whatever the command, the pool stays well formed, a refused command
/// changes nothing, and after an accepted one the pending total plus what the
/// response pays out equals the former total plus the net deposit.
pub proof fn custody_is_conserved(
    pre: BatchPool,
    env: Env,
    msg: BatchMsg,
    post: BatchPool,
    r: Result<HandleResponse, PoolError>,
)
    requires
        pre.wf(),
        handle_post(pre, env, msg, post, r),
    ensures
        post.wf(),
        r is Err ==> post == pre,
        r matches Ok(resp) ==> post.total() + paid_out(resp.messages@) == pre.total() + deposited(
            pre,
            msg,
        ),
{
    match msg {
        BatchMsg::Deposit { amount, recipient, from } => {
            deposit_conserves_custody(pre, env, amount, recipient, from, post, r);
        },
        BatchMsg::Exit {  } => {
            exit_keeps_others(pre, env, post, r->Ok_0);
        },
        BatchMsg::ForceFlush {  } => {
            if let Ok(resp) = r {
                let convert = seq![
                    Instruction {
                        kind: InstructionKind::Convert,
                        target: pre.snip20_address,
                        amount: pre.stack.total,
                    },
                ];
                reveal_with_fuel(paid_out, 2);
                assert(convert.drop_last() =~= Seq::<Instruction>::empty());
                lemma_payouts_total(pre.stack.entries@);
                lemma_paid_out_concat(convert, payouts(pre.stack.entries@));
            }
        },
        _ => {
            if let Ok(resp) = r {
                assert(paid_out(resp.messages@) == 0);
            }
        },
    }
}

} // verus!
