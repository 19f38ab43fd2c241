//! Values exchanged with the host: the calling environment, coins, errors
//! and the messages a contract asks the host to deliver after a call commits.
use crate::name_service::{CallView, HandleMsg};
use vstd::prelude::*;

verus! {

/// An amount of one currency, in its smallest unit.
#[derive(Debug, PartialEq, Eq)]
pub struct Coin {
    pub denom: String,
    pub amount: u128,
}

/// What the host tells a contract about the call it is running.
#[derive(Debug)]
pub struct Env {
    /// Identity of the caller.
    pub sender: String,
    /// Identity of the contract being called.
    pub contract_address: String,
    /// Payment attached to the call.
    pub sent_funds: Vec<Coin>,
}

/// Why a call was refused; a refused call changes nothing and sends nothing.
#[derive(Debug, Clone, Copy, PartialEq, Eq, Structural)]
pub enum ContractError {
    AccessDenied,
    PaymentRequired,
    NotFound,
    ConfigUninitialized,
}

/// A message queued for the host to deliver after the current call commits.
#[derive(Debug, PartialEq, Eq)]
pub enum OutMsg {
    /// Create a registry whose construction calls back `Signup` on `signup_contract`.
    InstantiateRegistry { code_id: u64, signup_contract: String },
    /// Call a registry entry point.
    Execute { contract_addr: String, msg: HandleMsg },
    /// Deliver an already encoded message.
    ExecuteRaw { contract_addr: String, payload: Vec<u8> },
    /// Move coins from one account to another.
    BankSend { from_address: String, to_address: String, amount: Coin },
}

/// What a successful mutation hands back to the host.
#[derive(Debug, PartialEq, Eq)]
pub struct Response {
    pub messages: Vec<OutMsg>,
}

/// The mathematical form of an outgoing message.
pub enum MsgView {
    InstantiateRegistry { code_id: u64, signup_contract: Seq<char> },
    Execute { contract: Seq<char>, call: CallView },
    ExecuteRaw { contract: Seq<char>, msg: Seq<u8> },
    BankSend { from: Seq<char>, to: Seq<char>, denom: Seq<char>, amount: u128 },
}

impl View for OutMsg {
    type V = MsgView;

    open spec fn view(&self) -> MsgView {
        match self {
            OutMsg::InstantiateRegistry { code_id, signup_contract } => MsgView::InstantiateRegistry {
                code_id: *code_id,
                signup_contract: signup_contract@,
            },
            OutMsg::Execute { contract_addr, msg } => MsgView::Execute {
                contract: contract_addr@,
                call: msg@,
            },
            OutMsg::ExecuteRaw { contract_addr, payload } => MsgView::ExecuteRaw {
                contract: contract_addr@,
                msg: payload@,
            },
            OutMsg::BankSend { from_address, to_address, amount } => MsgView::BankSend {
                from: from_address@,
                to: to_address@,
                denom: amount.denom@,
                amount: amount.amount,
            },
        }
    }
}

impl View for Response {
    type V = Seq<MsgView>;

    open spec fn view(&self) -> Seq<MsgView> {
        self.messages@.map_values(|m: OutMsg| m@)
    }
}

/// The messages of a successful call, or the error of a refused one.
pub open spec fn outcome(r: Result<Response, ContractError>) -> Result<Seq<MsgView>, ContractError> {
    match r {
        Ok(resp) => Ok(resp@),
        Err(e) => Err(e),
    }
}

/// The mathematical form of a result that carries a string.
pub open spec fn text_result(r: Result<String, ContractError>) -> Result<Seq<char>, ContractError> {
    match r {
        Ok(t) => Ok(t@),
        Err(e) => Err(e),
    }
}

/// A response that sends nothing.
pub fn empty_response() -> (r: Response)
    ensures
        r@ == Seq::<MsgView>::empty(),
{
    let r = Response { messages: Vec::new() };
    assert(r@ =~= Seq::<MsgView>::empty());
    r
}

} // verus!
