//! What holds over any number of messages, one after the other.
use vstd::prelude::*;

use crate::api::ApiView;
use crate::balance_laws::{
    amount_in, law_minus_saturating_takes_at_most, law_plus_adds,
};
use crate::contract::{handle_step, or_no_allowance};
use crate::contract_laws::{
    balances_sorted, held_by, is_administrator, law_balances_stay_sorted,
    law_execute_grants_nothing, law_frozen_administrators_stay,
    law_messages_change_only_what_they_are_about, law_others_spend_their_allowance,
};
use crate::error::ErrorView;
use crate::msg::{Empty, HandleMsg};
use crate::spending_laws::msgs_total;
use crate::state::{empty_storage, StorageView};

verus! {

/// A message and who sends it.
pub struct Call {
    pub sender: Seq<char>,
    pub msg: HandleMsg<Empty>,
}

/// The records after `calls`, one after the other.
pub open spec fn run(s: StorageView, api: ApiView, calls: Seq<Call>) -> StorageView
    decreases calls.len(),
{
    if calls.len() == 0 {
        s
    } else {
        handle_step(
            run(s, api, calls.drop_last()),
            api,
            calls.last().sender,
            calls.last().msg,
        ).0
    }
}

/// What `call` grants to `account` in `denom`: the amount of an increase of its
/// allowance that is carried out.
pub open spec fn granted(
    s: StorageView,
    api: ApiView,
    call: Call,
    account: Seq<u8>,
    denom: Seq<char>,
) -> nat {
    match call.msg {
        HandleMsg::IncreaseAllowance { spender, amount, .. } => if handle_step(
            s,
            api,
            call.sender,
            call.msg,
        ).1 is Ok && api.canonical_address(spender@) == Ok::<_, ErrorView>(account) {
            amount_in(amount@, denom)
        } else {
            0
        },
        _ => 0,
    }
}

/// What `call` sends in `denom` for `account` as no administrator: the sum of the
/// transfers that are relayed for it.
pub open spec fn spent(
    s: StorageView,
    api: ApiView,
    call: Call,
    account: Seq<u8>,
    denom: Seq<char>,
) -> nat {
    match call.msg {
        HandleMsg::Execute { msgs } => if handle_step(s, api, call.sender, call.msg).1 is Ok
            && api.canonical_address(call.sender) == Ok::<_, ErrorView>(account)
            && !is_administrator(s, api, call.sender) {
            msgs_total(msgs@, denom)
        } else {
            0
        },
        _ => 0,
    }
}

/// The sum of what `calls` grant to `account` in `denom`.
pub open spec fn total_granted(
    s: StorageView,
    api: ApiView,
    calls: Seq<Call>,
    account: Seq<u8>,
    denom: Seq<char>,
) -> nat
    decreases calls.len(),
{
    if calls.len() == 0 {
        0
    } else {
        total_granted(s, api, calls.drop_last(), account, denom) + granted(
            run(s, api, calls.drop_last()),
            api,
            calls.last(),
            account,
            denom,
        )
    }
}

/// The sum of what `calls` send in `denom` for `account` as no administrator.
pub open spec fn total_spent(
    s: StorageView,
    api: ApiView,
    calls: Seq<Call>,
    account: Seq<u8>,
    denom: Seq<char>,
) -> nat
    decreases calls.len(),
{
    if calls.len() == 0 {
        0
    } else {
        total_spent(s, api, calls.drop_last(), account, denom) + spent(
            run(s, api, calls.drop_last()),
            api,
            calls.last(),
            account,
            denom,
        )
    }
}

/// With one message, what an account holds and spends is no more than what it
/// held and is granted.
pub proof fn law_one_message_creates_no_coins(
    s: StorageView,
    api: ApiView,
    call: Call,
    account: Seq<u8>,
    denom: Seq<char>,
)
    ensures
        held_by(handle_step(s, api, call.sender, call.msg).0, account, denom) + spent(
            s,
            api,
            call,
            account,
            denom,
        ) <= held_by(s, account, denom) + granted(s, api, call, account, denom),
{
    law_messages_change_only_what_they_are_about(s, api, call.sender, call.msg, account);
    let before = or_no_allowance(s.allowance_of(account)->Ok_0);
    match call.msg {
        HandleMsg::Execute { msgs } => {
            law_execute_grants_nothing(s, api, call.sender, msgs@, account, denom);
            if spent(s, api, call, account, denom) > 0 {
                law_others_spend_their_allowance(s, api, call.sender, account, msgs@, denom);
            }
        },
        HandleMsg::IncreaseAllowance { spender, amount, expires } => {
            law_plus_adds(before.balance, amount@, denom);
        },
        HandleMsg::DecreaseAllowance { spender, amount, expires } => {
            if s.allowance_of(account) is Ok {
                law_minus_saturating_takes_at_most(before.balance, amount@, denom);
            }
        },
        _ => {},
    }
}

/// Balances that are sorted stay sorted, whatever messages come.
pub proof fn law_balances_stay_sorted_forever(s: StorageView, api: ApiView, calls: Seq<Call>)
    requires
        balances_sorted(s),
    ensures
        balances_sorted(run(s, api, calls)),
    decreases calls.len(),
{
    if calls.len() > 0 {
        law_balances_stay_sorted_forever(s, api, calls.drop_last());
        law_balances_stay_sorted(
            run(s, api, calls.drop_last()),
            api,
            calls.last().sender,
            calls.last().msg,
        );
    }
}

/// Whatever messages come, what an account holds in the end and spent on the way
/// is no more than what it held at first and was granted on the way.
pub proof fn law_messages_create_no_coins(
    s: StorageView,
    api: ApiView,
    calls: Seq<Call>,
    account: Seq<u8>,
    denom: Seq<char>,
)
    ensures
        held_by(run(s, api, calls), account, denom) + total_spent(s, api, calls, account, denom)
            <= held_by(s, account, denom) + total_granted(s, api, calls, account, denom),
    decreases calls.len(),
{
    if calls.len() > 0 {
        law_messages_create_no_coins(s, api, calls.drop_last(), account, denom);
        law_one_message_creates_no_coins(
            run(s, api, calls.drop_last()),
            api,
            calls.last(),
            account,
            denom,
        );
    }
}

/// No account that is no administrator ever spends more than administrators
/// granted to it, on a contract that starts without allowances.
pub proof fn law_nobody_spends_more_than_was_granted(
    s: StorageView,
    api: ApiView,
    calls: Seq<Call>,
    account: Seq<u8>,
    denom: Seq<char>,
)
    requires
        s.allowances == empty_storage().allowances,
    ensures
        total_spent(s, api, calls, account, denom) <= total_granted(
            s,
            api,
            calls,
            account,
            denom,
        ),
{
    law_messages_create_no_coins(s, api, calls, account, denom);
}

/// Once the list of administrators is frozen, it stays as it is, whatever
/// messages come.
pub proof fn law_frozen_administrators_stay_forever(
    s: StorageView,
    api: ApiView,
    calls: Seq<Call>,
)
    requires
        s.admin_list is Ok,
        !s.admin_list->Ok_0.mutable,
    ensures
        run(s, api, calls).admin_list == s.admin_list,
    decreases calls.len(),
{
    if calls.len() > 0 {
        law_frozen_administrators_stay_forever(s, api, calls.drop_last());
        law_frozen_administrators_stay(
            run(s, api, calls.drop_last()),
            api,
            calls.last().sender,
            calls.last().msg,
        );
    }
}

} // verus!
