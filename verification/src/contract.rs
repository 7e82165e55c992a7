//! The contract's entry points.
use vstd::prelude::*;

use crate::api::{ApiView, Extern, HumanAddr};
use crate::coin::{
    balance_is_empty, balance_minus, balance_minus_saturating, balance_plus, balance_plus_fits,
    coins_view, Balance, Coin, CoinView,
};
use crate::decimal::{decimal, uint128_to_string};
use crate::error::{result_view, ErrorView, StdError, StdResult};
use crate::msg::{
    humans_view, log, sent_coins, BankMsg, CosmosMsg, Empty, Env, HandleMsg, HandleResponse,
    InitMsg, InitResponse, LogAttribute, LogView, QueryMsg, QueryResponse, QueryResponseView,
    ResponseView,
};
use crate::state::{
    no_allowance, Allowance, AllowanceView, CanonicalAddr, ContractVersionView, Expiration,
    StorageView,
};
use crate::whitelist;
use crate::whitelist::{
    admin_list_answer, freeze_step, handle_freeze, handle_update_admins, init_step, is_admin,
    query_admin_list, update_admins_step,
};

verus! {

/// The name and the version of this contract.
pub open spec fn contract_version() -> ContractVersionView {
    ContractVersionView { contract: "crates.io:cw1-subkeys"@, version: "v0.1.0"@ }
}

/// Sets the contract up: notes its name and version, then sets up the list of
/// administrators. The name noted first does not outlast the call: setting up the
/// list notes its own name and version in the same place.
pub fn init(deps: &mut Extern, env: Env, msg: InitMsg) -> (answer: StdResult<InitResponse>)
    ensures
        (final(deps).storage@, result_view(answer)) == init_step(
            old(deps).storage@.with_contract_info(contract_version()),
            old(deps).api@,
            humans_view(msg.admins@),
            msg.mutable,
        ),
        final(deps).api@ == old(deps).api@,
{
    deps.storage.set_contract_version("crates.io:cw1-subkeys", "v0.1.0");
    whitelist::init(deps, env, msg)
}

/// What is left of `b` after paying `coins` one by one, or the error of the
/// first that it cannot pay.
pub open spec fn spend_coins(b: Seq<CoinView>, coins: Seq<CoinView>) -> Result<
    Seq<CoinView>,
    ErrorView,
>
    decreases coins.len(),
{
    if coins.len() == 0 {
        Ok(b)
    } else {
        match spend_coins(b, coins.drop_last()) {
            Ok(rest) => balance_minus(rest, coins.last()),
            Err(error) => Err(error),
        }
    }
}

/// What the messages do to an allowance: what is left of it after the longest run
/// of messages from the first on that it pays for, and whether those were all.
///
/// It pays for a message if that is a transfer of coins that it still holds.
pub open spec fn spend_msgs<T>(a: AllowanceView, msgs: Seq<CosmosMsg<T>>) -> (
    AllowanceView,
    Result<(), ErrorView>,
)
    decreases msgs.len(),
{
    if msgs.len() == 0 {
        (a, Ok(()))
    } else {
        let (left, paid) = spend_msgs(a, msgs.drop_last());
        match (paid, sent_coins(msgs.last())) {
            (Err(error), _) => (left, Err(error)),
            (Ok(_), None) => (left, Err(ErrorView::GenericErr { msg: "Message type rejected"@ })),
            (Ok(_), Some(coins)) => match spend_coins(left.balance, coins) {
                Ok(balance) => (AllowanceView { balance, expires: left.expires }, Ok(())),
                Err(error) => (left, Err(error)),
            },
        }
    }
}

/// The answer that relays `msgs` for `sender`.
pub open spec fn relayed<T>(msgs: Seq<CosmosMsg<T>>, sender: Seq<char>) -> ResponseView<T> {
    ResponseView {
        messages: msgs,
        log: seq![
            LogView { key: "action"@, value: "execute"@ },
            LogView { key: "owner"@, value: sender },
        ],
        data: None,
    }
}

/// What relaying `msgs` for `sender` leads to: the records after it, and the
/// answer.
///
/// An administrator has all of them relayed. Any other sender pays for them with
/// an allowance; what was paid before a message that is refused stays paid.
pub open spec fn execute_step<T>(
    s: StorageView,
    api: ApiView,
    sender: Seq<char>,
    msgs: Seq<CosmosMsg<T>>,
) -> (StorageView, Result<ResponseView<T>, ErrorView>) {
    match s.admin_list {
        Err(error) => (s, Err(error)),
        Ok(list) => match api.canonical_address(sender) {
            Err(error) => (s, Err(error)),
            Ok(owner) => if list.is_admin(owner) {
                (s, Ok(relayed(msgs, sender)))
            } else {
                match s.allowance_of(owner) {
                    Err(error) => (s, Err(error)),
                    Ok(None) => (
                        s,
                        Err(ErrorView::NotFound { kind: "No allowance for this account"@ }),
                    ),
                    Ok(Some(allowance)) => {
                        let (left, paid) = spend_msgs(allowance, msgs);
                        (
                            s.with_allowance(owner, left),
                            match paid {
                                Ok(_) => Ok(relayed(msgs, sender)),
                                Err(error) => Err(error),
                            },
                        )
                    },
                }
            },
        },
    }
}

fn relay<T>(msgs: Vec<CosmosMsg<T>>, sender: &HumanAddr) -> (response: HandleResponse<T>)
    ensures
        response@ == relayed(msgs@, sender@),
{
    let response = HandleResponse {
        messages: msgs,
        log: vec![log("action", "execute"), log("owner", sender.as_str())],
        data: None,
    };
    assert(response@ =~= relayed(msgs@, sender@));
    response
}

/// Pays `coins` one by one.
fn spend(balance: Balance, coins: &Vec<Coin>) -> (rest: StdResult<Balance>)
    ensures
        result_view(rest) == spend_coins(balance@, coins_view(coins@)),
{
    let ghost start = balance@;
    let ghost all = coins_view(coins@);
    let mut left = balance;
    let mut i: usize = 0;
    while i < coins.len()
        invariant
            i <= coins@.len(),
            start == balance@,
            all == coins_view(coins@),
            spend_coins(start, all.take(i as int)) == Ok::<_, ErrorView>(left@),
        decreases coins@.len() - i,
    {
        assert(all.take(i + 1).drop_last() =~= all.take(i as int));
        assert(all.take(i + 1).last() == coins@[i as int]@);
        match left.sub(coins[i].clone()) {
            Ok(rest) => {
                left = rest;
            },
            Err(error) => {
                proof {
                    lemma_spend_coins_stops(start, all, i as int);
                }
                return Err(error);
            },
        }
        i += 1;
    }
    assert(all.take(i as int) =~= all);
    Ok(left)
}

/// A coin that cannot be paid decides the answer for all that follow.
proof fn lemma_spend_coins_stops(b: Seq<CoinView>, coins: Seq<CoinView>, i: int)
    requires
        0 <= i < coins.len(),
        spend_coins(b, coins.take(i + 1)) is Err,
    ensures
        spend_coins(b, coins) == spend_coins(b, coins.take(i + 1)),
    decreases coins.len() - i,
{
    if i + 1 == coins.len() {
        assert(coins.take(i + 1) =~= coins);
    } else {
        assert(coins.take(i + 2).drop_last() =~= coins.take(i + 1));
        lemma_spend_coins_stops(b, coins, i + 1);
    }
}

/// A message that is not paid for decides the answer for all that follow.
pub(crate) proof fn lemma_spend_msgs_stops<T>(a: AllowanceView, msgs: Seq<CosmosMsg<T>>, i: int)
    requires
        0 <= i < msgs.len(),
        spend_msgs(a, msgs.take(i + 1)).1 is Err,
    ensures
        spend_msgs(a, msgs) == spend_msgs(a, msgs.take(i + 1)),
    decreases msgs.len() - i,
{
    if i + 1 == msgs.len() {
        assert(msgs.take(i + 1) =~= msgs);
    } else {
        assert(msgs.take(i + 2).drop_last() =~= msgs.take(i + 1));
        lemma_spend_msgs_stops(a, msgs, i + 1);
    }
}

/// Relays messages: all of them for an administrator, and for any other sender
/// transfers that the sender's allowance pays for.
pub fn handle_execute<T>(deps: &mut Extern, env: Env, msgs: Vec<CosmosMsg<T>>) -> (answer:
    StdResult<HandleResponse<T>>)
    ensures
        (final(deps).storage@, result_view(answer)) == execute_step(
            old(deps).storage@,
            old(deps).api@,
            env.message.sender@,
            msgs@,
        ),
        final(deps).api@ == old(deps).api@,
{
    let list = match deps.storage.load_admin_list() {
        Ok(list) => list,
        Err(error) => {
            return Err(error);
        },
    };
    let owner = match deps.api.canonical_address(&env.message.sender) {
        Ok(owner) => owner,
        Err(error) => {
            return Err(error);
        },
    };
    if is_admin(&list, &owner) {
        return Ok(relay(msgs, &env.message.sender));
    }
    let mut allowance = match deps.storage.allowances.may_load(&owner) {
        Ok(Some(allowance)) => allowance,
        Ok(None) => {
            return Err(StdError::not_found("No allowance for this account"));
        },
        Err(error) => {
            return Err(error);
        },
    };
    let ghost before = deps.storage@;
    let ghost api = deps.api@;
    let ghost start = allowance@;
    let mut i: usize = 0;
    assert(before =~= before.with_allowance(owner@, start));
    while i < msgs.len()
        invariant
            i <= msgs@.len(),
            spend_msgs(start, msgs@.take(i as int)) == (allowance@, Ok::<(), ErrorView>(())),
            deps.storage@ == before.with_allowance(owner@, allowance@),
            deps.api@ == api,
            before == old(deps).storage@,
            api == old(deps).api@,
            before.admin_list matches Ok(list) && !list.is_admin(owner@),
            api.canonical_address(env.message.sender@) == Ok::<_, ErrorView>(owner@),
            before.allowance_of(owner@) == Ok::<_, ErrorView>(Some(start)),
        decreases msgs@.len() - i,
    {
        assert(msgs@.take(i + 1).drop_last() =~= msgs@.take(i as int));
        match &msgs[i] {
            CosmosMsg::Bank(BankMsg::Send { from_address: _, to_address: _, amount }) => {
                match spend(allowance.balance, amount) {
                    Ok(balance) => {
                        allowance = Allowance { balance, expires: allowance.expires };
                        deps.storage.allowances.save(&owner, allowance.clone());
                        assert(deps.storage@ =~= before.with_allowance(owner@, allowance@));
                    },
                    Err(error) => {
                        proof {
                            lemma_spend_msgs_stops(start, msgs@, i as int);
                        }
                        return Err(error);
                    },
                }
            },
            _ => {
                proof {
                    lemma_spend_msgs_stops(start, msgs@, i as int);
                }
                return Err(StdError::generic_err("Message type rejected"));
            },
        }
        i += 1;
    }
    assert(msgs@.take(i as int) =~= msgs@);
    Ok(relay(msgs, &env.message.sender))
}

/// The canonical forms of `sender` and of `spender`, where `sender` may change
/// the allowance of `spender`: an administrator may, but not the one that the
/// allowance is for.
pub open spec fn grant_parties(
    s: StorageView,
    api: ApiView,
    sender: Seq<char>,
    spender: Seq<char>,
) -> Result<(Seq<u8>, Seq<u8>), ErrorView> {
    match s.admin_list {
        Err(error) => Err(error),
        Ok(list) => match (api.canonical_address(spender), api.canonical_address(sender)) {
            (Err(error), _) => Err(error),
            (Ok(_), Err(error)) => Err(error),
            (Ok(account), Ok(owner)) => if !list.is_admin(owner) {
                Err(ErrorView::Unauthorized)
            } else if account == owner {
                Err(ErrorView::GenericErr { msg: "Cannot set allowance to own account"@ })
            } else {
                Ok((owner, account))
            },
        },
    }
}

/// The view of two accounts, or of the error in their place.
pub open spec fn parties_view(parties: StdResult<(CanonicalAddr, CanonicalAddr)>) -> Result<
    (Seq<u8>, Seq<u8>),
    ErrorView,
> {
    match parties {
        Ok((owner, account)) => Ok((owner@, account@)),
        Err(error) => Err(error@),
    }
}

fn find_parties(deps: &Extern, sender: &HumanAddr, spender: &HumanAddr) -> (parties: StdResult<
    (CanonicalAddr, CanonicalAddr),
>)
    ensures
        parties_view(parties) == grant_parties(deps.storage@, deps.api@, sender@, spender@),
{
    let list = match deps.storage.load_admin_list() {
        Ok(list) => list,
        Err(error) => {
            return Err(error);
        },
    };
    let account = match deps.api.canonical_address(spender) {
        Ok(account) => account,
        Err(error) => {
            return Err(error);
        },
    };
    let owner = match deps.api.canonical_address(sender) {
        Ok(owner) => owner,
        Err(error) => {
            return Err(error);
        },
    };
    if !is_admin(&list, &owner) {
        return Err(StdError::unauthorized());
    }
    if account == owner {
        assert(account@ =~= owner@);
        return Err(StdError::generic_err("Cannot set allowance to own account"));
    }
    Ok((owner, account))
}

/// The allowance that a change starts from: an account without one starts from
/// no coins and no end.
pub open spec fn or_no_allowance(kept: Option<AllowanceView>) -> AllowanceView {
    match kept {
        Some(allowance) => allowance,
        None => no_allowance(),
    }
}

/// The end that an allowance has after a change: the old one where none is given.
pub open spec fn new_expiration(
    expires: Option<Expiration>,
    allowance: AllowanceView,
) -> Expiration {
    match expires {
        Some(expires) => expires,
        None => allowance.expires,
    }
}

/// The answer to a change of an allowance.
pub open spec fn changed<T>(
    action: Seq<char>,
    owner: Seq<char>,
    spender: Seq<char>,
    amount: CoinView,
) -> ResponseView<T> {
    ResponseView {
        messages: Seq::empty(),
        log: seq![
            LogView { key: "action"@, value: action },
            LogView { key: "owner"@, value: owner },
            LogView { key: "spender"@, value: spender },
            LogView { key: "denomination"@, value: amount.denom },
            LogView { key: "amount"@, value: decimal(amount.amount) },
        ],
        data: None,
    }
}

fn report_change<T>(action: &str, owner: &HumanAddr, spender: &HumanAddr, amount: &Coin) -> (
    response: HandleResponse<T>)
    ensures
        response@ == changed::<T>(action@, owner@, spender@, amount@),
{
    let log: Vec<LogAttribute> = vec![
        log("action", action),
        log("owner", owner.as_str()),
        log("spender", spender.as_str()),
        log("denomination", amount.denom.as_str()),
        log("amount", uint128_to_string(amount.amount).as_str()),
    ];
    let response = HandleResponse { messages: Vec::new(), log, data: None };
    assert(response@ =~= changed::<T>(action@, owner@, spender@, amount@));
    response
}

/// What adding `amount` to the allowance of `spender` leads to.
pub open spec fn increase_step<T>(
    s: StorageView,
    api: ApiView,
    sender: Seq<char>,
    spender: Seq<char>,
    amount: CoinView,
    expires: Option<Expiration>,
) -> (StorageView, Result<ResponseView<T>, ErrorView>) {
    match grant_parties(s, api, sender, spender) {
        Err(error) => (s, Err(error)),
        Ok((_, account)) => match s.allowance_of(account) {
            Err(error) => (s, Err(error)),
            Ok(kept) => {
                let allowance = or_no_allowance(kept);
                let increased = AllowanceView {
                    balance: balance_plus(allowance.balance, amount),
                    expires: new_expiration(expires, allowance),
                };
                (
                    s.with_allowance(account, increased),
                    Ok(changed("increase_allowance"@, sender, spender, amount)),
                )
            },
        },
    }
}

/// Adding `amount` to the allowance of `spender` asks for no sum that cannot be
/// written in 128 bits.
pub open spec fn increase_fits(
    s: StorageView,
    api: ApiView,
    sender: Seq<char>,
    spender: Seq<char>,
    amount: CoinView,
) -> bool {
    grant_parties(s, api, sender, spender) matches Ok(parties) ==> (s.allowance_of(
        parties.1,
    ) matches Ok(Some(allowance)) ==> balance_plus_fits(allowance.balance, amount))
}

/// Whether adding `amount` to the allowance of `spender` asks for no sum that
/// cannot be written in 128 bits.
pub fn can_increase(deps: &Extern, env: &Env, spender: &HumanAddr, amount: &Coin) -> (fits: bool)
    ensures
        fits == increase_fits(
            deps.storage@,
            deps.api@,
            env.message.sender@,
            spender@,
            amount@,
        ),
{
    match find_parties(deps, &env.message.sender, spender) {
        Ok((_, account)) => match deps.storage.allowances.may_load(&account) {
            Ok(Some(allowance)) => allowance.balance.can_add(amount),
            _ => true,
        },
        Err(_) => true,
    }
}

/// Adds `amount` to the allowance of `spender`, and sets its end if one is given.
pub fn handle_increase_allowance<T>(
    deps: &mut Extern,
    env: Env,
    spender: HumanAddr,
    amount: Coin,
    expires: Option<Expiration>,
) -> (answer: StdResult<HandleResponse<T>>)
    requires
        increase_fits(
            old(deps).storage@,
            old(deps).api@,
            env.message.sender@,
            spender@,
            amount@,
        ),
    ensures
        (final(deps).storage@, result_view(answer)) == increase_step::<T>(
            old(deps).storage@,
            old(deps).api@,
            env.message.sender@,
            spender@,
            amount@,
            expires,
        ),
        final(deps).api@ == old(deps).api@,
{
    let account = match find_parties(deps, &env.message.sender, &spender) {
        Ok((_, account)) => account,
        Err(error) => {
            return Err(error);
        },
    };
    let mut allowance = match deps.storage.allowances.may_load(&account) {
        Ok(Some(allowance)) => allowance,
        Ok(None) => Allowance::default(),
        Err(error) => {
            return Err(error);
        },
    };
    if let Some(expires) = expires {
        allowance.expires = expires;
    }
    allowance.balance.add_assign(amount.clone());
    deps.storage.allowances.save(&account, allowance);
    Ok(report_change("increase_allowance", &env.message.sender, &spender, &amount))
}

/// What taking `amount` from the allowance of `spender` leads to.
///
/// An allowance without coins is not kept. The report names the sender as the
/// codec writes the canonical form; where it has no answer, the change stands
/// and the codec's error is the answer.
pub open spec fn decrease_step<T>(
    s: StorageView,
    api: ApiView,
    sender: Seq<char>,
    spender: Seq<char>,
    amount: CoinView,
    expires: Option<Expiration>,
) -> (StorageView, Result<ResponseView<T>, ErrorView>) {
    match grant_parties(s, api, sender, spender) {
        Err(error) => (s, Err(error)),
        Ok((owner, account)) => match s.allowance_of(account) {
            Err(error) => (s, Err(error)),
            Ok(None) => (s, Err(ErrorView::NotFound { kind: "No allowance for this account"@ })),
            Ok(Some(allowance)) => match balance_minus_saturating(allowance.balance, amount) {
                Err(error) => (s, Err(error)),
                Ok(balance) => {
                    let decreased = AllowanceView {
                        balance,
                        expires: new_expiration(expires, allowance),
                    };
                    (
                        if balance_is_empty(balance) {
                            s.without_allowance(account)
                        } else {
                            s.with_allowance(account, decreased)
                        },
                        match api.human_address(owner) {
                            Ok(owner) => Ok(
                                changed("decrease_allowance"@, owner, spender, amount),
                            ),
                            Err(error) => Err(error),
                        },
                    )
                },
            },
        },
    }
}

/// Takes `amount` from the allowance of `spender`, or all that it holds of the
/// denomination where that is less, and sets its end if one is given.
pub fn handle_decrease_allowance<T>(
    deps: &mut Extern,
    env: Env,
    spender: HumanAddr,
    amount: Coin,
    expires: Option<Expiration>,
) -> (answer: StdResult<HandleResponse<T>>)
    ensures
        (final(deps).storage@, result_view(answer)) == decrease_step::<T>(
            old(deps).storage@,
            old(deps).api@,
            env.message.sender@,
            spender@,
            amount@,
            expires,
        ),
        final(deps).api@ == old(deps).api@,
{
    let (owner, account) = match find_parties(deps, &env.message.sender, &spender) {
        Ok(parties) => parties,
        Err(error) => {
            return Err(error);
        },
    };
    let allowance = match deps.storage.allowances.may_load(&account) {
        Ok(Some(allowance)) => allowance,
        Ok(None) => {
            return Err(StdError::not_found("No allowance for this account"));
        },
        Err(error) => {
            return Err(error);
        },
    };
    let expires = match expires {
        Some(expires) => expires,
        None => allowance.expires,
    };
    let balance = match allowance.balance.sub_saturating(amount.clone()) {
        Ok(balance) => balance,
        Err(error) => {
            return Err(error);
        },
    };
    let empty = balance.is_empty();
    deps.storage.allowances.save(&account, Allowance { balance, expires });
    if empty {
        deps.storage.allowances.remove(&account);
        assert(deps.storage@ =~= old(deps).storage@.without_allowance(account@));
    }
    match deps.api.human_address(&owner) {
        Ok(owner) => Ok(report_change("decrease_allowance", &owner, &spender, &amount)),
        Err(error) => Err(error),
    }
}

/// What handling `msg` from `sender` leads to: the records after it, and the
/// answer.
pub open spec fn handle_step(
    s: StorageView,
    api: ApiView,
    sender: Seq<char>,
    msg: HandleMsg<Empty>,
) -> (StorageView, Result<ResponseView<Empty>, ErrorView>) {
    match msg {
        HandleMsg::Execute { msgs } => execute_step(s, api, sender, msgs@),
        HandleMsg::Freeze {  } => freeze_step(s, api, sender),
        HandleMsg::UpdateAdmins { admins } => update_admins_step(
            s,
            api,
            sender,
            humans_view(admins@),
        ),
        HandleMsg::IncreaseAllowance { spender, amount, expires } => increase_step(
            s,
            api,
            sender,
            spender@,
            amount@,
            expires,
        ),
        HandleMsg::DecreaseAllowance { spender, amount, expires } => decrease_step(
            s,
            api,
            sender,
            spender@,
            amount@,
            expires,
        ),
    }
}

/// Handling `msg` from `sender` asks for no sum that cannot be written in 128
/// bits.
pub open spec fn handle_fits(
    s: StorageView,
    api: ApiView,
    sender: Seq<char>,
    msg: HandleMsg<Empty>,
) -> bool {
    msg matches HandleMsg::IncreaseAllowance { spender, amount, .. } ==> increase_fits(
        s,
        api,
        sender,
        spender@,
        amount@,
    )
}

/// Whether handling `msg` asks for no sum that cannot be written in 128 bits.
pub fn can_handle(deps: &Extern, env: &Env, msg: &HandleMsg<Empty>) -> (fits: bool)
    ensures
        fits == handle_fits(deps.storage@, deps.api@, env.message.sender@, *msg),
{
    match msg {
        HandleMsg::IncreaseAllowance { spender, amount, expires: _ } => can_increase(
            deps,
            env,
            spender,
            amount,
        ),
        _ => true,
    }
}

/// Handles a message.
pub fn handle(deps: &mut Extern, env: Env, msg: HandleMsg<Empty>) -> (answer: StdResult<
    HandleResponse<Empty>,
>)
    requires
        handle_fits(old(deps).storage@, old(deps).api@, env.message.sender@, msg),
    ensures
        (final(deps).storage@, result_view(answer)) == handle_step(
            old(deps).storage@,
            old(deps).api@,
            env.message.sender@,
            msg,
        ),
        final(deps).api@ == old(deps).api@,
{
    match msg {
        HandleMsg::Execute { msgs } => handle_execute(deps, env, msgs),
        HandleMsg::Freeze {  } => handle_freeze(deps, env),
        HandleMsg::UpdateAdmins { admins } => handle_update_admins(deps, env, admins),
        HandleMsg::IncreaseAllowance { spender, amount, expires } => handle_increase_allowance(
            deps,
            env,
            spender,
            amount,
            expires,
        ),
        HandleMsg::DecreaseAllowance { spender, amount, expires } => handle_decrease_allowance(
            deps,
            env,
            spender,
            amount,
            expires,
        ),
    }
}

/// What asking for the allowance of `spender` gives.
pub open spec fn allowance_answer(s: StorageView, api: ApiView, spender: Seq<char>) -> Result<
    AllowanceView,
    ErrorView,
> {
    match api.canonical_address(spender) {
        Ok(account) => match s.allowance_of(account) {
            Ok(kept) => Ok(or_no_allowance(kept)),
            Err(error) => Err(error),
        },
        Err(error) => Err(error),
    }
}

/// The allowance of `spender`. An account without one has an allowance of no
/// coins and no end.
pub fn query_allowance(deps: &Extern, spender: HumanAddr) -> (answer: StdResult<Allowance>)
    ensures
        result_view(answer) == allowance_answer(deps.storage@, deps.api@, spender@),
{
    match deps.api.canonical_address(&spender) {
        Ok(account) => match deps.storage.allowances.may_load(&account) {
            Ok(Some(allowance)) => Ok(allowance),
            Ok(None) => Ok(Allowance::default()),
            Err(error) => Err(error),
        },
        Err(error) => Err(error),
    }
}

/// What a query gives.
pub open spec fn query_answer(s: StorageView, api: ApiView, msg: QueryMsg) -> Result<
    QueryResponseView,
    ErrorView,
> {
    match msg {
        QueryMsg::AdminList {  } => match admin_list_answer(s, api) {
            Ok(list) => Ok(QueryResponseView::AdminList(list)),
            Err(error) => Err(error),
        },
        QueryMsg::Allowance { spender } => match allowance_answer(s, api, spender@) {
            Ok(allowance) => Ok(QueryResponseView::Allowance(allowance)),
            Err(error) => Err(error),
        },
    }
}

/// Answers a query.
pub fn query(deps: &Extern, msg: QueryMsg) -> (answer: StdResult<QueryResponse>)
    ensures
        result_view(answer) == query_answer(deps.storage@, deps.api@, msg),
{
    match msg {
        QueryMsg::AdminList {  } => match query_admin_list(deps) {
            Ok(list) => Ok(QueryResponse::AdminList(list)),
            Err(error) => Err(error),
        },
        QueryMsg::Allowance { spender } => match query_allowance(deps, spender) {
            Ok(allowance) => Ok(QueryResponse::Allowance(allowance)),
            Err(error) => Err(error),
        },
    }
}

} // verus!
