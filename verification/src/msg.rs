//! Message types of the engine's external interface: requests, query
//! answers, and the transfer instructions handed back to the host.

use vstd::prelude::*;

use crate::state::{coins_view, Coin, CoinV};

verus! {

/// Instantiation carries no configuration.
pub struct InstantiateMsg {}

/// Mathematical form of `CreateMsg`.
pub struct CreateMsgV {
    pub id: Seq<char>,
    pub arbiter: Seq<char>,
    pub recipient: Seq<char>,
    pub end_height: Option<u64>,
    pub end_time: Option<u64>,
}

/// A request to open an escrow under a caller-chosen id.
#[derive(Debug, PartialEq, Eq)]
pub struct CreateMsg {
    pub id: String,
    pub arbiter: String,
    pub recipient: String,
    /// When end height is set and the block height exceeds this value,
    /// the escrow is expired.
    pub end_height: Option<u64>,
    /// When end time (in seconds since epoch 00:00:00 UTC on 1 January
    /// 1970) is set and the block time exceeds this value, the escrow is
    /// expired.
    pub end_time: Option<u64>,
}

impl View for CreateMsg {
    type V = CreateMsgV;

    open spec fn view(&self) -> CreateMsgV {
        CreateMsgV {
            id: self.id@,
            arbiter: self.arbiter@,
            recipient: self.recipient@,
            end_height: self.end_height,
            end_time: self.end_time,
        }
    }
}

/// Mathematical form of `ReceiveMsg`.
pub enum ReceiveMsgV {
    Create(CreateMsgV),
    TopUp { id: Seq<char> },
}

/// What a token-contract deposit asks the engine to do with the funds.
pub enum ReceiveMsg {
    Create(CreateMsg),
    /// Adds the sent tokens to an existing escrow.
    TopUp { id: String },
}

impl View for ReceiveMsg {
    type V = ReceiveMsgV;

    open spec fn view(&self) -> ReceiveMsgV {
        match self {
            ReceiveMsg::Create(msg) => ReceiveMsgV::Create(msg@),
            ReceiveMsg::TopUp { id } => ReceiveMsgV::TopUp { id: id@ },
        }
    }
}

/// Mathematical form of `Cw20ReceiveMsg`.
pub struct Cw20ReceiveMsgV {
    pub sender: Seq<char>,
    pub amount: int,
    pub msg: ReceiveMsgV,
}

/// A deposit forwarded by a token contract: who sent it, how much, and
/// the decoded instruction that came along with it.
pub struct Cw20ReceiveMsg {
    pub sender: String,
    pub amount: u128,
    pub msg: ReceiveMsg,
}

impl View for Cw20ReceiveMsg {
    type V = Cw20ReceiveMsgV;

    open spec fn view(&self) -> Cw20ReceiveMsgV {
        Cw20ReceiveMsgV { sender: self.sender@, amount: self.amount as int, msg: self.msg@ }
    }
}

/// Mathematical form of `ExecuteMsg`.
pub enum ExecuteMsgV {
    Create(CreateMsgV),
    Approve { id: Seq<char> },
    Refund { id: Seq<char> },
    TopUp { id: Seq<char> },
    Receive(Cw20ReceiveMsgV),
}

/// The closed set of requests the engine executes.
pub enum ExecuteMsg {
    Create(CreateMsg),
    /// Approve sends all tokens to the recipient. Only the arbiter can do
    /// this.
    Approve { id: String },
    /// Refund returns all remaining tokens; only the arbiter can do this.
    Refund { id: String },
    TopUp { id: String },
    /// A deposit forwarded by a token contract.
    Receive(Cw20ReceiveMsg),
}

impl View for ExecuteMsg {
    type V = ExecuteMsgV;

    open spec fn view(&self) -> ExecuteMsgV {
        match self {
            ExecuteMsg::Create(msg) => ExecuteMsgV::Create(msg@),
            ExecuteMsg::Approve { id } => ExecuteMsgV::Approve { id: id@ },
            ExecuteMsg::Refund { id } => ExecuteMsgV::Refund { id: id@ },
            ExecuteMsg::TopUp { id } => ExecuteMsgV::TopUp { id: id@ },
            ExecuteMsg::Receive(msg) => ExecuteMsgV::Receive(msg@),
        }
    }
}

/// The read-only queries.
pub enum QueryMsg {
    /// Returns the public fields of one escrow as a `DetailsResponse`.
    Details { id: String },
    /// Returns the ids of all live escrows as a `ListResponse`.
    List {},
}

/// The caller of one request: its address and the native coins attached.
pub struct MessageInfo {
    pub sender: String,
    pub funds: Vec<Coin>,
}

/// Answer to an arbiter query.
pub struct ArbiterResponse {
    pub arbiter: String,
}

/// A token-contract amount as reported to query callers.
#[derive(Debug, PartialEq, Eq)]
pub struct Cw20Coin {
    pub address: String,
    pub amount: u128,
}

impl View for Cw20Coin {
    type V = CoinV;

    open spec fn view(&self) -> CoinV {
        CoinV { denom: self.address@, amount: self.amount as int }
    }
}

pub open spec fn cw20coins_view(s: Seq<Cw20Coin>) -> Seq<CoinV> {
    s.map_values(|c: Cw20Coin| c@)
}

/// Mathematical form of `DetailsResponse`.
pub struct DetailsResponseV {
    pub id: Seq<char>,
    pub arbiter: Seq<char>,
    pub recipient: Seq<char>,
    pub source: Seq<char>,
    pub end_height: Option<u64>,
    pub end_time: Option<u64>,
    pub native_balance: Seq<CoinV>,
    pub cw20_balance: Seq<CoinV>,
}

/// The public fields of one escrow, with its balance decomposed into the
/// native and the token-contract lists.
#[derive(Debug, PartialEq, Eq)]
pub struct DetailsResponse {
    /// Id of this escrow.
    pub id: String,
    /// The arbiter can decide to approve or refund the escrow.
    pub arbiter: String,
    /// If approved, funds go to the recipient.
    pub recipient: String,
    /// Address that funded the escrow.
    pub source: String,
    pub end_height: Option<u64>,
    pub end_time: Option<u64>,
    /// Balance in native tokens.
    pub native_balance: Vec<Coin>,
    /// Balance in cw20 tokens.
    pub cw20_balance: Vec<Cw20Coin>,
}

impl View for DetailsResponse {
    type V = DetailsResponseV;

    open spec fn view(&self) -> DetailsResponseV {
        DetailsResponseV {
            id: self.id@,
            arbiter: self.arbiter@,
            recipient: self.recipient@,
            source: self.source@,
            end_height: self.end_height,
            end_time: self.end_time,
            native_balance: coins_view(self.native_balance@),
            cw20_balance: cw20coins_view(self.cw20_balance@),
        }
    }
}

/// All live escrow ids.
#[derive(Debug, PartialEq, Eq)]
pub struct ListResponse {
    /// All registered ids, in ascending order.
    pub escrows: Vec<String>,
}

/// Mathematical form of `TransferInstruction`.
pub enum TransferInstructionV {
    Native { to_address: Seq<char>, amount: Seq<CoinV> },
    Cw20 { contract_addr: Seq<char>, recipient: Seq<char>, amount: int },
}

/// A fund movement the host must execute: either one native-currency
/// send carrying a batch of coins, or one token-contract transfer call.
/// The engine only emits these; it never executes them.
#[derive(Debug, PartialEq, Eq)]
pub enum TransferInstruction {
    Native { to_address: String, amount: Vec<Coin> },
    Cw20 { contract_addr: String, recipient: String, amount: u128 },
}

impl View for TransferInstruction {
    type V = TransferInstructionV;

    open spec fn view(&self) -> TransferInstructionV {
        match self {
            TransferInstruction::Native { to_address, amount } => TransferInstructionV::Native {
                to_address: to_address@,
                amount: coins_view(amount@),
            },
            TransferInstruction::Cw20 { contract_addr, recipient, amount } => (
            TransferInstructionV::Cw20 {
                contract_addr: contract_addr@,
                recipient: recipient@,
                amount: *amount as int,
            }),
        }
    }
}

pub open spec fn msgs_view(s: Seq<TransferInstruction>) -> Seq<TransferInstructionV> {
    s.map_values(|m: TransferInstruction| m@)
}

/// What a successful operation hands back to the host: the transfer
/// instructions to carry out, in order.
#[derive(Debug, PartialEq, Eq)]
pub struct Response {
    pub messages: Vec<TransferInstruction>,
}

impl View for Response {
    type V = Seq<TransferInstructionV>;

    open spec fn view(&self) -> Seq<TransferInstructionV> {
        msgs_view(self.messages@)
    }
}

} // verus!
