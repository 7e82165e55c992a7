//! The messages that the contract takes and relays, and what it answers.
use vstd::prelude::*;

use crate::api::HumanAddr;
use crate::coin::{coins_view, Coin, CoinView};
use crate::state::{Allowance, AllowanceView, Expiration};

verus! {

/// Bytes that are passed on as they are.
pub type Binary = Vec<u8>;

/// No custom message.
#[derive(Clone, Debug, PartialEq)]
pub struct Empty {}

/// A message to the chain's bank.
#[derive(Clone, Debug, PartialEq)]
pub enum BankMsg {
    /// Moves coins from one account to another.
    Send { from_address: HumanAddr, to_address: HumanAddr, amount: Vec<Coin> },
}

/// A message to the chain's staking module.
#[derive(Clone, Debug, PartialEq)]
pub enum StakingMsg {
    Delegate { validator: HumanAddr, amount: Coin },
    Undelegate { validator: HumanAddr, amount: Coin },
    Withdraw { validator: HumanAddr, recipient: Option<HumanAddr> },
    Redelegate { src_validator: HumanAddr, dst_validator: HumanAddr, amount: Coin },
}

/// A message to another contract.
#[derive(Clone, Debug, PartialEq)]
pub enum WasmMsg {
    Execute { contract_addr: HumanAddr, msg: Binary, send: Vec<Coin> },
    Instantiate { code_id: u64, msg: Binary, send: Vec<Coin>, label: Option<String> },
}

/// A message that the contract can relay.
#[derive(Clone, Debug, PartialEq)]
pub enum CosmosMsg<T> {
    Bank(BankMsg),
    Custom(T),
    Staking(StakingMsg),
    Wasm(WasmMsg),
}

/// The coins that `msg` sends, if it is a transfer.
pub open spec fn sent_coins<T>(msg: CosmosMsg<T>) -> Option<Seq<CoinView>> {
    match msg {
        CosmosMsg::Bank(BankMsg::Send { amount, .. }) => Some(coins_view(amount@)),
        _ => None,
    }
}

/// What a call knows of the message that it handles.
#[derive(Clone, Debug, PartialEq)]
pub struct MessageInfo {
    /// The account that signed the message.
    pub sender: HumanAddr,
}

/// What a call knows of its surroundings.
#[derive(Clone, Debug, PartialEq)]
pub struct Env {
    pub message: MessageInfo,
}

/// Sets the contract up.
#[derive(Clone, Debug, PartialEq)]
pub struct InitMsg {
    pub admins: Vec<HumanAddr>,
    pub mutable: bool,
}

/// Asks the contract to do something.
#[derive(Clone, Debug, PartialEq)]
pub enum HandleMsg<T> {
    /// Relays messages.
    Execute { msgs: Vec<CosmosMsg<T>> },
    /// Makes the list of administrators unchangeable.
    Freeze {},
    /// Replaces the list of administrators.
    UpdateAdmins { admins: Vec<HumanAddr> },
    /// Adds to the allowance of an account.
    IncreaseAllowance { spender: HumanAddr, amount: Coin, expires: Option<Expiration> },
    /// Takes from the allowance of an account.
    DecreaseAllowance { spender: HumanAddr, amount: Coin, expires: Option<Expiration> },
}

/// Asks the contract about its records.
#[derive(Clone, Debug, PartialEq)]
pub enum QueryMsg {
    /// The list of administrators.
    AdminList {},
    /// The allowance of an account.
    Allowance { spender: HumanAddr },
}

/// One line of what a call reports.
#[derive(Clone, Debug, PartialEq)]
pub struct LogAttribute {
    pub key: String,
    pub value: String,
}

/// What a [`LogAttribute`] says.
#[verifier::ext_equal]
pub struct LogView {
    pub key: Seq<char>,
    pub value: Seq<char>,
}

impl View for LogAttribute {
    type V = LogView;

    open spec fn view(&self) -> LogView {
        LogView { key: self.key@, value: self.value@ }
    }
}

/// The views of some lines, in order.
pub open spec fn log_view(log: Seq<LogAttribute>) -> Seq<LogView> {
    log.map_values(|line: LogAttribute| line@)
}

/// `cosmwasm_std::log` on two strings: the line holds both as they are.
#[verifier::external_body]
pub(crate) fn log(key: &str, value: &str) -> (line: LogAttribute)
    ensures
        line@ == (LogView { key: key@, value: value@ }),
{
    let line = cosmwasm_std::log(key, value);
    LogAttribute { key: line.key, value: line.value }
}

/// The answer to a call that set the contract up.
#[derive(Clone, Debug, PartialEq)]
pub struct InitResponse {
    pub messages: Vec<CosmosMsg<Empty>>,
    pub log: Vec<LogAttribute>,
}

/// What an [`InitResponse`] says.
#[verifier::ext_equal]
pub struct InitResponseView {
    pub messages: Seq<CosmosMsg<Empty>>,
    pub log: Seq<LogView>,
}

impl View for InitResponse {
    type V = InitResponseView;

    open spec fn view(&self) -> InitResponseView {
        InitResponseView { messages: self.messages@, log: log_view(self.log@) }
    }
}

/// The answer to a call that changed the records or relays messages.
#[derive(Clone, Debug, PartialEq)]
pub struct HandleResponse<T> {
    /// The messages to relay.
    pub messages: Vec<CosmosMsg<T>>,
    /// What the call reports.
    pub log: Vec<LogAttribute>,
    /// What the call returns.
    pub data: Option<Binary>,
}

/// What a [`HandleResponse`] says.
#[verifier::ext_equal]
pub struct ResponseView<T> {
    pub messages: Seq<CosmosMsg<T>>,
    pub log: Seq<LogView>,
    pub data: Option<Seq<u8>>,
}

impl<T> View for HandleResponse<T> {
    type V = ResponseView<T>;

    open spec fn view(&self) -> ResponseView<T> {
        ResponseView {
            messages: self.messages@,
            log: log_view(self.log@),
            data: match self.data {
                Some(data) => Some(data@),
                None => None,
            },
        }
    }
}

/// The views of some accounts, in order.
pub open spec fn humans_view(humans: Seq<HumanAddr>) -> Seq<Seq<char>> {
    humans.map_values(|h: HumanAddr| h@)
}

/// The administrators as people write them.
#[derive(Clone, Debug, PartialEq)]
pub struct AdminListResponse {
    pub admins: Vec<HumanAddr>,
    pub mutable: bool,
}

/// What an [`AdminListResponse`] says.
#[verifier::ext_equal]
pub struct AdminListResponseView {
    pub admins: Seq<Seq<char>>,
    pub mutable: bool,
}

impl View for AdminListResponse {
    type V = AdminListResponseView;

    open spec fn view(&self) -> AdminListResponseView {
        AdminListResponseView { admins: humans_view(self.admins@), mutable: self.mutable }
    }
}

/// The answer to a query.
#[derive(Debug, PartialEq)]
pub enum QueryResponse {
    AdminList(AdminListResponse),
    Allowance(Allowance),
}

/// What a [`QueryResponse`] says.
#[verifier::ext_equal]
pub enum QueryResponseView {
    AdminList(AdminListResponseView),
    Allowance(AllowanceView),
}

impl View for QueryResponse {
    type V = QueryResponseView;

    open spec fn view(&self) -> QueryResponseView {
        match *self {
            QueryResponse::AdminList(list) => QueryResponseView::AdminList(list@),
            QueryResponse::Allowance(allowance) => QueryResponseView::Allowance(allowance@),
        }
    }
}

} // verus!
