//! Commands, queries, their answers and the instructions that the pool hands
//! to its host.

use vstd::prelude::*;
use crate::state::Config;

verus! {

/// What a fresh pool is opened with.
#[derive(Clone, Debug, PartialEq, Eq)]
pub struct InitMsg {
    /// Recipient of fees and able to make adjustments.
    pub admin: String,
    /// Able to finalize payouts.
    pub operator: String,
    /// Cost of every use.
    pub fee: u128,
    /// The operator's part of the fee.
    pub op_share: u128,
    /// Lower bound of the flush threshold.
    pub min_stack: u8,
    /// Upper bound of the flush threshold.
    pub max_stack: u8,
    /// Address of the custody token.
    pub sscrt_addr: String,
    /// Code hash of the custody token.
    pub sscrt_hash: String,
    /// Text that seeds the entropy generator.
    pub entropy: String,
}

/// The instruction that a deposit carries in its payload.
#[derive(Clone, Debug, PartialEq, Eq)]
pub enum HandleReceiveMsg {
    ReceiveSeed {  },
}

/// The payload of a deposit notification, as far as the host could read it.
#[derive(Clone, Debug, PartialEq, Eq)]
pub enum ReceivePayload {
    /// The notification carried no payload.
    Missing,
    /// The payload was there and is no known instruction.
    Unreadable,
    /// The payload held this instruction.
    Read(HandleReceiveMsg),
}

/// The command that asks the custody token to convert pooled tokens into the
/// native settlement asset.
#[derive(Clone, Debug, PartialEq, Eq)]
pub enum RedeemHandleMsg {
    Redeem { amount: u128, denom: Option<String>, padding: Option<String> },
}

/// The commands of the ticket pool.
#[derive(Clone, Debug, PartialEq, Eq)]
pub enum HandleMsg {
    /// A deposit, announced by the custody token.
    Receive { sender: String, from: String, amount: u128, msg: ReceivePayload },
    /// The operator pays a ticket out to `sender`.
    FinalizeSeed { tx_key: String, sender: String },
    /// The holder of a ticket takes the deposit back.
    ExitPool { tx_key: String },
    ChangeFee { new_fee: u128, new_op_share: u128 },
    ChangeAdmin { new_admin: String },
    ChangeOperator { new_operator: String },
}

/// The read-only queries of the ticket pool.
#[derive(Clone, Debug, PartialEq, Eq)]
pub enum QueryMsg {
    GetConfig {  },
    GetExists { tx_key: String },
    GetPoolSize {  },
}

#[derive(Clone, Debug, PartialEq, Eq)]
pub struct ConfigResponse {
    pub active: bool,
    pub fee: u128,
    pub min_stack: u8,
    pub max_stack: u8,
}

/// The snapshot of a configuration that a query shows.
pub open spec fn config_snapshot(config: Config) -> ConfigResponse {
    ConfigResponse {
        active: config.active,
        fee: config.fee,
        min_stack: config.min_stack,
        max_stack: config.max_stack,
    }
}

impl ConfigResponse {
    /// Takes the snapshot of `config`.
    pub fn of(config: &Config) -> (r: ConfigResponse)
        ensures
            r == config_snapshot(*config),
    {
        ConfigResponse {
            active: config.active,
            fee: config.fee,
            min_stack: config.min_stack,
            max_stack: config.max_stack,
        }
    }
}

#[derive(Clone, Debug, PartialEq, Eq)]
pub struct ExistsResponse {
    pub exists: bool,
}

#[derive(Clone, Debug, PartialEq, Eq)]
pub struct PoolSizeResponse {
    pub pool_size: u16,
}

/// The answer to a query, one variant per query.
#[derive(Clone, Debug, PartialEq, Eq)]
pub enum QueryResponse {
    Config(ConfigResponse),
    Exists(ExistsResponse),
    PoolSize(PoolSizeResponse),
}

/// What an instruction asks the host to do.
#[derive(Clone, Copy, Debug, PartialEq, Eq, Structural)]
pub enum InstructionKind {
    /// Hand a share of the fee to `target`.
    FeeTransfer,
    /// Have the custody token `target` convert `amount` into the native
    /// settlement asset.
    Convert,
    /// Pay `amount` out to `target`.
    Payout,
}

/// One record of the batch that the host submits atomically.
#[derive(Clone, Debug, PartialEq, Eq)]
pub struct Instruction {
    pub kind: InstructionKind,
    pub target: String,
    pub amount: u128,
}

/// The outcome of a command: the instructions to submit, in order, and the
/// claim key where the command issued one.
#[derive(Clone, Debug, PartialEq, Eq)]
pub struct HandleResponse {
    pub messages: Vec<Instruction>,
    pub tx_code: Option<String>,
}

/// The sum of what the payout instructions among `msgs` pay out.
pub open spec fn paid_out(msgs: Seq<Instruction>) -> nat
    decreases msgs.len(),
{
    if msgs.len() == 0 {
        0
    } else {
        paid_out(msgs.drop_last()) + (if msgs.last().kind == InstructionKind::Payout {
            msgs.last().amount as nat
        } else {
            0
        })
    }
}

/// The number of payout instructions among `msgs`.
pub open spec fn payout_count(msgs: Seq<Instruction>) -> nat
    decreases msgs.len(),
{
    if msgs.len() == 0 {
        0
    } else {
        payout_count(msgs.drop_last()) + (if msgs.last().kind == InstructionKind::Payout {
            1nat
        } else {
            0nat
        })
    }
}

/// How the host settles an instruction.
#[derive(Clone, Copy, Debug, PartialEq, Eq, Structural)]
pub enum Settlement {
    /// A transfer of custody tokens to the target.
    Transfer,
    /// The custody token redeems the amount into the native asset.
    Redeem,
    /// A payment of the native asset to the target.
    Send,
}

/// Whether a conversion stands before place `i` of `batch`.
pub open spec fn converted_before(batch: Seq<Instruction>, i: int) -> bool {
    exists|j: int| 0 <= j < i && (#[trigger] batch[j]).kind == InstructionKind::Convert
}

/// The settlement of the instruction at place `i` of `batch`: a fee share is
/// transferred in tokens, a conversion is a redemption, and a payout is sent
/// in the native asset where the batch has converted before it, else
/// transferred in tokens.
pub open spec fn settlement_of(batch: Seq<Instruction>, i: int) -> Settlement {
    match batch[i].kind {
        InstructionKind::FeeTransfer => Settlement::Transfer,
        InstructionKind::Convert => Settlement::Redeem,
        InstructionKind::Payout => if converted_before(batch, i) {
            Settlement::Send
        } else {
            Settlement::Transfer
        },
    }
}

/// Tells the host how to settle the instruction at place `i` of `batch`.
pub fn settlement(batch: &Vec<Instruction>, i: usize) -> (r: Settlement)
    requires
        i < batch@.len(),
    ensures
        r == settlement_of(batch@, i as int),
{
    match batch[i].kind {
        InstructionKind::FeeTransfer => Settlement::Transfer,
        InstructionKind::Convert => Settlement::Redeem,
        InstructionKind::Payout => {
            let mut j: usize = 0;
            while j < i
                invariant
                    j <= i < batch@.len(),
                    batch@[i as int].kind == InstructionKind::Payout,
                    forall|k: int| 0 <= k < j ==> (#[trigger] batch@[k]).kind != InstructionKind::Convert,
                decreases i - j,
            {
                match batch[j].kind {
                    InstructionKind::Convert => {
                        assert(batch@[j as int].kind == InstructionKind::Convert);
                        return Settlement::Send;
                    },
                    _ => {},
                }
                j += 1;
            }
            Settlement::Transfer
        },
    }
}

impl HandleResponse {
    /// A response that asks nothing of the host.
    pub fn empty() -> (r: HandleResponse)
        ensures
            r.messages@ == Seq::<Instruction>::empty(),
            r.tx_code == None::<String>,
    {
        HandleResponse { messages: Vec::new(), tx_code: None }
    }
}

/// The conversion command for `amount`: into the native denomination, without
/// explicit padding.
pub fn redeem_msg(amount: u128) -> (r: RedeemHandleMsg)
    ensures
        r matches RedeemHandleMsg::Redeem { amount: a, denom: Some(d), padding: None } && a == amount
            && d@ == "uscrt"@,
{
    RedeemHandleMsg::Redeem { amount, denom: Some("uscrt".to_owned()), padding: None }
}

} // verus!
