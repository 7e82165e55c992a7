//! What each entry point answers and leaves behind, told by the records, the codec
//! and the message alone.
use vstd::prelude::*;

use crate::api::{ApiView, HumanAddr};
use crate::balance_laws::distinct;
use crate::coin::{balance_minus_saturating, balance_plus, coins_view, Coin, CoinView};
use crate::contract::{
    allowance_answer, contract_version, decrease_step, execute_step, handle_fits, handle_step,
    increase_fits, increase_step, query_answer, spend_coins, spend_msgs,
};
use crate::contract_laws::law_others_are_relayed_what_they_can_pay;
use crate::decimal::decimal;
use crate::denom::denom_lt;
use crate::error::ErrorView;
use crate::msg::{
    humans_view, AdminListResponseView, BankMsg, CosmosMsg, Empty, HandleMsg, InitResponseView,
    LogView, QueryMsg, QueryResponseView, ResponseView,
};
use crate::spending_laws::{
    all_sent, all_transfers, law_coins_can_be_split, law_messages_are_paid_exactly,
    law_messages_can_be_split, payable,
};
use crate::state::{AdminListView, AllowanceView, ContractVersionView, Expiration, StorageView};
use crate::value_laws::{
    law_canonical_forms_are_found_name_by_name, law_human_forms_are_found_account_by_account,
    law_new_denominations_are_put_in, law_the_first_place_decides,
};
use crate::whitelist::{admin_list_answer, freeze_step, init_step, update_admins_step};

verus! {

/// `sender` is the account `owner`, which is one of the administrators in `list`.
pub open spec fn from_administrator(
    s: StorageView,
    api: ApiView,
    sender: Seq<char>,
    owner: Seq<u8>,
    list: AdminListView,
) -> bool {
    &&& s.admin_list == Ok::<_, ErrorView>(list)
    &&& api.canonical_address(sender) == Ok::<_, ErrorView>(owner)
    &&& exists|i: int| 0 <= i < list.admins.len() && #[trigger] list.admins[i] == owner
}

/// `sender` is the account `owner`, which is none of the administrators in `list`.
pub open spec fn from_other(
    s: StorageView,
    api: ApiView,
    sender: Seq<char>,
    owner: Seq<u8>,
    list: AdminListView,
) -> bool {
    &&& s.admin_list == Ok::<_, ErrorView>(list)
    &&& api.canonical_address(sender) == Ok::<_, ErrorView>(owner)
    &&& forall|i: int| 0 <= i < list.admins.len() ==> #[trigger] list.admins[i] != owner
}

/// `account` has the allowance `allowance`.
pub open spec fn keeps(s: StorageView, account: Seq<u8>, allowance: AllowanceView) -> bool {
    &&& s.allowances.contains_key(account)
    &&& s.allowances[account] == Ok::<_, ErrorView>(allowance)
}

/// `i` is the first place of `b` in `denom`.
pub open spec fn first_in(b: Seq<CoinView>, denom: Seq<char>, i: int) -> bool {
    &&& 0 <= i < b.len()
    &&& b[i].denom == denom
    &&& forall|j: int| 0 <= j < i ==> (#[trigger] b[j]).denom != denom
}

/// No place of `b` is in `denom`.
pub open spec fn none_in(b: Seq<CoinView>, denom: Seq<char>) -> bool {
    forall|j: int| 0 <= j < b.len() ==> (#[trigger] b[j]).denom != denom
}

/// Every message is handled by the function that is made for it, and only an
/// increase can ask for a sum that does not fit.
pub proof fn law_messages_are_handled_by_their_functions(
    s: StorageView,
    api: ApiView,
    sender: Seq<char>,
    msg: HandleMsg<Empty>,
)
    ensures
        msg matches HandleMsg::Execute { msgs } ==> handle_step(s, api, sender, msg)
            == execute_step(s, api, sender, msgs@),
        msg is Freeze ==> handle_step(s, api, sender, msg) == freeze_step(s, api, sender),
        msg matches HandleMsg::UpdateAdmins { admins } ==> handle_step(s, api, sender, msg)
            == update_admins_step(s, api, sender, humans_view(admins@)),
        msg matches HandleMsg::IncreaseAllowance { spender, amount, expires } ==> {
            &&& handle_step(s, api, sender, msg) == increase_step::<Empty>(
                s,
                api,
                sender,
                spender@,
                amount@,
                expires,
            )
            &&& handle_fits(s, api, sender, msg) == increase_fits(
                s,
                api,
                sender,
                spender@,
                amount@,
            )
        },
        msg matches HandleMsg::DecreaseAllowance { spender, amount, expires } ==> handle_step(
            s,
            api,
            sender,
            msg,
        ) == decrease_step::<Empty>(s, api, sender, spender@, amount@, expires),
        msg !is IncreaseAllowance ==> handle_fits(s, api, sender, msg),
{
}

/// An administrator has any messages relayed as they are, whether or not the list
/// may change; the answer reports who had them relayed, and no record changes.
pub proof fn law_execute_for_an_administrator<T>(
    s: StorageView,
    api: ApiView,
    sender: Seq<char>,
    owner: Seq<u8>,
    list: AdminListView,
    msgs: Seq<CosmosMsg<T>>,
)
    requires
        from_administrator(s, api, sender, owner, list),
    ensures
        execute_step(s, api, sender, msgs) == (
            s,
            Ok::<_, ErrorView>(
                ResponseView {
                    messages: msgs,
                    log: seq![
                        LogView { key: "action"@, value: "execute"@ },
                        LogView { key: "owner"@, value: sender },
                    ],
                    data: None,
                },
            ),
        ),
{
}

/// Handling a request to relay messages relays them for any administrator, whether
/// or not the list may change, and changes no record.
pub proof fn law_handling_relays_for_an_administrator(
    s: StorageView,
    api: ApiView,
    sender: Seq<char>,
    owner: Seq<u8>,
    list: AdminListView,
    msgs: Vec<CosmosMsg<Empty>>,
)
    requires
        from_administrator(s, api, sender, owner, list),
    ensures
        ({
            let (after, answer) = handle_step(s, api, sender, HandleMsg::Execute { msgs });
            &&& after == s
            &&& answer is Ok
            &&& answer->Ok_0.messages == msgs@
            &&& answer->Ok_0.log.len() == 2
            &&& answer->Ok_0.log[0] == (LogView { key: "action"@, value: "execute"@ })
            &&& answer->Ok_0.log[1] == (LogView { key: "owner"@, value: sender })
            &&& answer->Ok_0.data is None
        }),
{
}

/// Handling a request to relay messages of any other account relays them, if and
/// only if they are transfers that its allowance can pay, whether or not the list
/// may change. Left out are allowances that list a denomination twice, of which one
/// place alone pays for each coin.
pub proof fn law_handling_relays_what_an_allowance_can_pay(
    s: StorageView,
    api: ApiView,
    sender: Seq<char>,
    owner: Seq<u8>,
    list: AdminListView,
    allowance: AllowanceView,
    msgs: Vec<CosmosMsg<Empty>>,
)
    requires
        from_other(s, api, sender, owner, list),
        keeps(s, owner, allowance),
        distinct(allowance.balance),
    ensures
        ({
            let (after, answer) = handle_step(s, api, sender, HandleMsg::Execute { msgs });
            &&& answer is Ok <==> all_transfers(msgs@) && payable(
                allowance.balance,
                all_sent(msgs@),
            )
            &&& answer is Ok ==> answer->Ok_0.messages == msgs@
        }),
{
    law_others_are_relayed_what_they_can_pay(s, api, sender, owner, allowance, msgs@);
}

/// Messages are relayed only for a known sender with readable records: the list of
/// administrators first, and for any other account an allowance. Else nothing
/// changes, and the answer says what is missing.
pub proof fn law_execute_needs_records<T>(
    s: StorageView,
    api: ApiView,
    sender: Seq<char>,
    msgs: Seq<CosmosMsg<T>>,
    owner: Seq<u8>,
    list: AdminListView,
)
    ensures
        s.admin_list matches Err(error) ==> execute_step(s, api, sender, msgs) == (
            s,
            Err::<ResponseView<T>, _>(error),
        ),
        s.admin_list is Ok ==> (api.canonical_address(sender) matches Err(error) ==> execute_step(
            s,
            api,
            sender,
            msgs,
        ) == (s, Err::<ResponseView<T>, _>(error))),
        from_other(s, api, sender, owner, list) && !s.allowances.contains_key(owner)
            ==> execute_step(s, api, sender, msgs) == (
            s,
            Err::<ResponseView<T>, _>(
                ErrorView::NotFound { kind: "No allowance for this account"@ },
            ),
        ),
        from_other(s, api, sender, owner, list) && s.allowances.contains_key(owner) ==> (
        s.allowances[owner] matches Err(error) ==> execute_step(s, api, sender, msgs) == (
            s,
            Err::<ResponseView<T>, _>(error),
        )),
{
}

/// Whatever messages an account with an allowance asks to relay, its allowance is
/// kept with the end that it had, and no other record changes. If they are relayed,
/// the answer holds them as they are and reports who had them relayed.
pub proof fn law_execute_changes_one_balance<T>(
    s: StorageView,
    api: ApiView,
    sender: Seq<char>,
    owner: Seq<u8>,
    list: AdminListView,
    allowance: AllowanceView,
    msgs: Seq<CosmosMsg<T>>,
)
    requires
        from_other(s, api, sender, owner, list),
        keeps(s, owner, allowance),
    ensures
        ({
            let (after, answer) = execute_step(s, api, sender, msgs);
            &&& after.admin_list == s.admin_list
            &&& after.contract_info == s.contract_info
            &&& after.allowances.contains_key(owner)
            &&& after.allowances[owner] is Ok
            &&& after.allowances[owner]->Ok_0.expires == allowance.expires
            &&& forall|account: Seq<u8>|
                account != owner ==> {
                    &&& #[trigger] after.allowances.contains_key(account)
                        <==> s.allowances.contains_key(account)
                    &&& after.allowances[account] == s.allowances[account]
                }
            &&& answer is Ok ==> answer->Ok_0 == (ResponseView {
                messages: msgs,
                log: seq![
                    LogView { key: "action"@, value: "execute"@ },
                    LogView { key: "owner"@, value: sender },
                ],
                data: None,
            })
        }),
{
    law_messages_are_paid_exactly(allowance, msgs, Seq::empty());
}

/// What handling a request to relay messages does to an allowance: its end stays
/// what it was.
pub proof fn law_spending_keeps_the_end(
    s: StorageView,
    api: ApiView,
    sender: Seq<char>,
    owner: Seq<u8>,
    list: AdminListView,
    allowance: AllowanceView,
    msgs: Vec<CosmosMsg<Empty>>,
)
    requires
        from_other(s, api, sender, owner, list),
        keeps(s, owner, allowance),
    ensures
        ({
            let after = handle_step(s, api, sender, HandleMsg::Execute { msgs }).0;
            &&& after.allowances.contains_key(owner)
            &&& after.allowances[owner] is Ok
            &&& after.allowances[owner]->Ok_0.expires == allowance.expires
        }),
{
    law_messages_are_paid_exactly(allowance, msgs@, Seq::empty());
}

/// A transfer of one coin is paid by the first place of the allowance in its
/// denomination: that place gives the amount, or leaves if it held just that. If it
/// holds less, or if there is none, the transfer is refused, the answer tells both
/// amounts, and nothing changes.
pub proof fn law_execute_pays_one_coin<T>(
    s: StorageView,
    api: ApiView,
    sender: Seq<char>,
    owner: Seq<u8>,
    list: AdminListView,
    allowance: AllowanceView,
    msg: CosmosMsg<T>,
    amount: Vec<Coin>,
    i: int,
)
    requires
        from_other(s, api, sender, owner, list),
        keeps(s, owner, allowance),
        msg matches CosmosMsg::Bank(BankMsg::Send { amount: sent, .. }) && sent == amount,
        amount@.len() == 1,
    ensures
        ({
            let (after, answer) = execute_step(s, api, sender, seq![msg]);
            let b = allowance.balance;
            let denom = amount@[0].denom@;
            let sent = amount@[0].amount as nat;
            &&& none_in(b, denom) ==> after =~= s && answer == Err::<ResponseView<T>, _>(
                ErrorView::Underflow { minuend: decimal(0), subtrahend: decimal(sent) },
            )
            &&& first_in(b, denom, i) && b[i].amount < sent ==> after =~= s && answer == Err::<
                ResponseView<T>,
                _,
            >(
                ErrorView::Underflow {
                    minuend: decimal(b[i].amount),
                    subtrahend: decimal(sent),
                },
            )
            &&& first_in(b, denom, i) && b[i].amount >= sent ==> {
                &&& answer is Ok
                &&& after.allowances.contains_key(owner)
                &&& after.allowances[owner] is Ok
                &&& after.allowances[owner]->Ok_0.balance == if b[i].amount == sent {
                    b.remove(i)
                } else {
                    b.update(i, CoinView { denom, amount: (b[i].amount - sent) as nat })
                }
            }
        }),
{
    let c = amount@[0]@;
    let coins = coins_view(amount@);
    assert(coins =~= seq![c]);
    assert(coins.drop_last() =~= Seq::<CoinView>::empty());
    assert(seq![msg].drop_last() =~= Seq::<CosmosMsg<T>>::empty());
    reveal_with_fuel(spend_coins, 2);
    reveal_with_fuel(spend_msgs, 2);
    if none_in(allowance.balance, c.denom) {
        law_new_denominations_are_put_in(allowance.balance, c, 0);
    }
    if first_in(allowance.balance, c.denom, i) {
        law_the_first_place_decides(allowance.balance, c, i);
    }
}

/// Of the coins of one transfer all are paid, as if each part of them were sent by
/// a transfer of its own; or, if those would not all be paid, none of them, and the
/// answer is theirs. A transfer of no coins costs nothing.
pub proof fn law_transfers_are_paid_whole<T>(
    s: StorageView,
    api: ApiView,
    sender: Seq<char>,
    whole: CosmosMsg<T>,
    part1: CosmosMsg<T>,
    part2: CosmosMsg<T>,
    coins: Vec<Coin>,
    coins1: Vec<Coin>,
    coins2: Vec<Coin>,
)
    requires
        whole matches CosmosMsg::Bank(BankMsg::Send { amount, .. }) && amount == coins,
        part1 matches CosmosMsg::Bank(BankMsg::Send { amount, .. }) && amount == coins1,
        part2 matches CosmosMsg::Bank(BankMsg::Send { amount, .. }) && amount == coins2,
        coins@ == coins1@ + coins2@,
    ensures
        ({
            let (after, answer) = execute_step(s, api, sender, seq![whole]);
            let (parts_after, parts_answer) = execute_step(s, api, sender, seq![part1, part2]);
            &&& parts_answer is Ok ==> after =~= parts_after && answer is Ok
            &&& parts_answer matches Err(error) ==> after =~= s && answer == Err::<
                ResponseView<T>,
                _,
            >(error)
        }),
        coins@.len() == 0 ==> execute_step(s, api, sender, seq![whole]).0 =~= s && (execute_step(
            s,
            api,
            sender,
            seq![whole],
        ).1 is Ok <==> execute_step(s, api, sender, Seq::<CosmosMsg<T>>::empty()).1 is Ok),
{
    let x = coins_view(coins@);
    let y = coins_view(coins1@);
    let z = coins_view(coins2@);
    assert(x =~= y + z);
    let parts = seq![part1, part2];
    assert(parts.drop_last() =~= seq![part1]);
    assert(seq![part1].drop_last() =~= Seq::<CosmosMsg<T>>::empty());
    assert(seq![whole].drop_last() =~= Seq::<CosmosMsg<T>>::empty());
    assert(parts.last() == part2);
    reveal_with_fuel(spend_msgs, 3);
    match s.admin_list {
        Ok(list) => match api.canonical_address(sender) {
            Ok(owner) => {
                if s.allowances.contains_key(owner) && s.allowances[owner] is Ok {
                    let allowance = s.allowances[owner]->Ok_0;
                    law_coins_can_be_split(allowance.balance, y, z);
                    assert(s.with_allowance(owner, allowance) =~= s);
                }
            },
            Err(_) => {},
        },
        Err(_) => {},
    }
}

/// Messages in two lots are handled as in one: if the first lot is relayed, the
/// second finds the records that the first left, and decides; if the first is
/// refused, the rest is not looked at.
pub proof fn law_execute_goes_message_by_message<T>(
    s: StorageView,
    api: ApiView,
    sender: Seq<char>,
    first: Seq<CosmosMsg<T>>,
    second: Seq<CosmosMsg<T>>,
)
    ensures
        ({
            let (after1, answer1) = execute_step(s, api, sender, first);
            let (after2, answer2) = execute_step(after1, api, sender, second);
            let (after, answer) = execute_step(s, api, sender, first + second);
            &&& answer1 matches Err(error) ==> after =~= after1 && answer == Err::<
                ResponseView<T>,
                _,
            >(error)
            &&& answer1 is Ok ==> {
                &&& after =~= after2
                &&& answer is Ok <==> answer2 is Ok
                &&& answer2 matches Err(error) ==> answer == Err::<ResponseView<T>, _>(error)
            }
        }),
{
    match s.admin_list {
        Ok(list) => match api.canonical_address(sender) {
            Ok(owner) => {
                if s.allowances.contains_key(owner) && s.allowances[owner] is Ok {
                    let allowance = s.allowances[owner]->Ok_0;
                    law_messages_can_be_split(allowance, first, second);
                }
            },
            Err(_) => {},
        },
        Err(_) => {},
    }
}

/// A request without messages succeeds for any account with an allowance. A message
/// that does not go to the bank is refused to it. Neither changes anything.
pub proof fn law_execute_relays_transfers_only<T>(
    s: StorageView,
    api: ApiView,
    sender: Seq<char>,
    owner: Seq<u8>,
    list: AdminListView,
    allowance: AllowanceView,
    msg: CosmosMsg<T>,
)
    requires
        from_other(s, api, sender, owner, list),
        keeps(s, owner, allowance),
    ensures
        execute_step(s, api, sender, Seq::<CosmosMsg<T>>::empty()).0 =~= s,
        execute_step(s, api, sender, Seq::<CosmosMsg<T>>::empty()).1 is Ok,
        msg !is Bank ==> {
            &&& execute_step(s, api, sender, seq![msg]).0 =~= s
            &&& execute_step(s, api, sender, seq![msg]).1 == Err::<ResponseView<T>, _>(
                ErrorView::GenericErr { msg: "Message type rejected"@ },
            )
        },
{
    assert(seq![msg].drop_last() =~= Seq::<CosmosMsg<T>>::empty());
    reveal_with_fuel(spend_msgs, 2);
}

/// What keeps an allowance from being changed, in this order: no readable list of
/// administrators, an unknown spender, an unknown sender, a sender who is no
/// administrator, a spender who is the sender, and an allowance that cannot be
/// read. Then nothing changes, and no sum is asked for. To take away there must be
/// an allowance.
pub proof fn law_changes_of_allowances_are_refused<T>(
    s: StorageView,
    api: ApiView,
    sender: Seq<char>,
    spender: Seq<char>,
    amount: CoinView,
    expires: Option<Expiration>,
    owner: Seq<u8>,
    account: Seq<u8>,
    list: AdminListView,
)
    ensures
        ({
            let increase = increase_step::<T>(s, api, sender, spender, amount, expires);
            let decrease = decrease_step::<T>(s, api, sender, spender, amount, expires);
            let fits = increase_fits(s, api, sender, spender, amount);
            let refused = |error: ErrorView|
                {
                    &&& increase == (s, Err::<ResponseView<T>, _>(error))
                    &&& decrease == (s, Err::<ResponseView<T>, _>(error))
                    &&& fits
                };
            let spender_known = api.canonical_address(spender) == Ok::<_, ErrorView>(account);
            &&& s.admin_list matches Err(error) ==> refused(error)
            &&& s.admin_list is Ok ==> (api.canonical_address(spender) matches Err(error)
                ==> refused(error))
            &&& s.admin_list is Ok && spender_known ==> (api.canonical_address(
                sender,
            ) matches Err(error) ==> refused(error))
            &&& spender_known && from_other(s, api, sender, owner, list) ==> refused(
                ErrorView::Unauthorized,
            )
            &&& spender_known && from_administrator(s, api, sender, owner, list) && owner
                == account ==> refused(
                ErrorView::GenericErr { msg: "Cannot set allowance to own account"@ },
            )
            &&& spender_known && from_administrator(s, api, sender, owner, list) && owner
                != account && s.allowances.contains_key(account) ==> (
            s.allowances[account] matches Err(error) ==> refused(error))
            &&& spender_known && from_administrator(s, api, sender, owner, list) && owner
                != account && !s.allowances.contains_key(account) ==> fits && decrease == (
                s,
                Err::<ResponseView<T>, _>(
                    ErrorView::NotFound { kind: "No allowance for this account"@ },
                ),
            )
        }),
{
}

/// An administrator's increase for another account is carried out. It keeps the
/// allowance with the end that is given, whichever that is, or else with the end
/// that it had, or without one if there was no allowance. No other record changes,
/// and the answer reports who gave what to whom.
pub proof fn law_increase_is_carried_out<T>(
    s: StorageView,
    api: ApiView,
    sender: Seq<char>,
    spender: Seq<char>,
    amount: CoinView,
    expires: Option<Expiration>,
    owner: Seq<u8>,
    account: Seq<u8>,
    list: AdminListView,
)
    requires
        from_administrator(s, api, sender, owner, list),
        api.canonical_address(spender) == Ok::<_, ErrorView>(account),
        owner != account,
        s.allowances.contains_key(account) ==> s.allowances[account] is Ok,
    ensures
        ({
            let (after, answer) = increase_step::<T>(s, api, sender, spender, amount, expires);
            let kept = s.allowances.contains_key(account);
            &&& answer == Ok::<_, ErrorView>(
                ResponseView::<T> {
                    messages: Seq::empty(),
                    log: seq![
                        LogView { key: "action"@, value: "increase_allowance"@ },
                        LogView { key: "owner"@, value: sender },
                        LogView { key: "spender"@, value: spender },
                        LogView { key: "denomination"@, value: amount.denom },
                        LogView { key: "amount"@, value: decimal(amount.amount) },
                    ],
                    data: None,
                },
            )
            &&& after.admin_list == s.admin_list
            &&& after.contract_info == s.contract_info
            &&& after.allowances.contains_key(account)
            &&& after.allowances[account] is Ok
            &&& after.allowances.remove(account) =~= s.allowances.remove(account)
            &&& expires matches Some(end) ==> after.allowances[account]->Ok_0.expires == end
            &&& expires is None && kept ==> after.allowances[account]->Ok_0.expires
                == s.allowances[account]->Ok_0.expires
            &&& expires is None && !kept ==> after.allowances[account]->Ok_0.expires is Never
        }),
{
}

/// An increase that is carried out adds the amount to the first place in the
/// denomination, or puts it in as a new place in front of the first that does not
/// come before it. The sum fits if it can be written in 128 bits, and where none is
/// asked for.
pub proof fn law_increase_adds_to_the_balance<T>(
    s: StorageView,
    api: ApiView,
    sender: Seq<char>,
    spender: Seq<char>,
    amount: CoinView,
    expires: Option<Expiration>,
    owner: Seq<u8>,
    account: Seq<u8>,
    list: AdminListView,
    before: Seq<CoinView>,
    i: int,
)
    requires
        from_administrator(s, api, sender, owner, list),
        api.canonical_address(spender) == Ok::<_, ErrorView>(account),
        owner != account,
        s.allowances.contains_key(account) ==> s.allowances[account] is Ok && before
            == s.allowances[account]->Ok_0.balance,
        !s.allowances.contains_key(account) ==> before.len() == 0,
    ensures
        ({
            let after = increase_step::<T>(s, api, sender, spender, amount, expires).0;
            &&& after.allowances.contains_key(account)
            &&& after.allowances[account] is Ok
            &&& first_in(before, amount.denom, i) ==> {
                &&& after.allowances[account]->Ok_0.balance == before.update(
                    i,
                    CoinView { denom: amount.denom, amount: before[i].amount + amount.amount },
                )
                &&& increase_fits(s, api, sender, spender, amount) <==> before[i].amount
                    + amount.amount <= u128::MAX
            }
            &&& none_in(before, amount.denom) ==> increase_fits(s, api, sender, spender, amount)
            &&& none_in(before, amount.denom) && 0 <= i <= before.len() && (forall|j: int|
                0 <= j < i ==> denom_lt((#[trigger] before[j]).denom, amount.denom)) && (i
                < before.len() ==> !denom_lt(before[i].denom, amount.denom))
                ==> after.allowances[account]->Ok_0.balance == before.insert(i, amount)
        }),
{
    if !s.allowances.contains_key(account) {
        assert(before =~= Seq::empty());
    }
    if first_in(before, amount.denom, i) {
        law_the_first_place_decides(before, amount, i);
    }
    if none_in(before, amount.denom) {
        law_new_denominations_are_put_in(before, amount, i);
    }
    let after = increase_step::<T>(s, api, sender, spender, amount, expires).0;
    assert(after.allowances[account]->Ok_0.balance == balance_plus(before, amount));
}

/// An administrator's decrease of another account's allowance changes no other
/// record. If there is a place in the denomination, the answer reports who took what
/// from whom, with the sender as the codec writes the account, or is the codec's
/// error. If there is none, the decrease is refused and nothing changes.
pub proof fn law_decrease_is_carried_out<T>(
    s: StorageView,
    api: ApiView,
    sender: Seq<char>,
    spender: Seq<char>,
    amount: CoinView,
    expires: Option<Expiration>,
    owner: Seq<u8>,
    account: Seq<u8>,
    list: AdminListView,
    allowance: AllowanceView,
    i: int,
)
    requires
        from_administrator(s, api, sender, owner, list),
        api.canonical_address(spender) == Ok::<_, ErrorView>(account),
        owner != account,
        keeps(s, account, allowance),
    ensures
        ({
            let (after, answer) = decrease_step::<T>(s, api, sender, spender, amount, expires);
            &&& after.admin_list == s.admin_list
            &&& after.contract_info == s.contract_info
            &&& after.allowances.remove(account) =~= s.allowances.remove(account)
            &&& none_in(allowance.balance, amount.denom) ==> (after, answer) == (
                s,
                Err::<ResponseView<T>, _>(
                    ErrorView::Underflow {
                        minuend: decimal(0),
                        subtrahend: decimal(amount.amount),
                    },
                ),
            )
            &&& first_in(allowance.balance, amount.denom, i) ==> {
                &&& api.human_address(owner) matches Ok(name) ==> answer == Ok::<_, ErrorView>(
                    ResponseView::<T> {
                        messages: Seq::empty(),
                        log: seq![
                            LogView { key: "action"@, value: "decrease_allowance"@ },
                            LogView { key: "owner"@, value: name },
                            LogView { key: "spender"@, value: spender },
                            LogView { key: "denomination"@, value: amount.denom },
                            LogView { key: "amount"@, value: decimal(amount.amount) },
                        ],
                        data: None,
                    },
                )
                &&& api.human_address(owner) matches Err(error) ==> answer == Err::<
                    ResponseView<T>,
                    _,
                >(error)
            }
        }),
{
    if first_in(allowance.balance, amount.denom, i) {
        law_the_first_place_decides(allowance.balance, amount, i);
    }
    if none_in(allowance.balance, amount.denom) {
        law_new_denominations_are_put_in(allowance.balance, amount, i);
    }
}

/// A decrease that is carried out takes the amount from the first place in the
/// denomination, or takes the place out if it holds no more than that. If coins are
/// left, the allowance is kept with the end that is given, whichever that is, or
/// else with the end that it had; if none are left, it is not kept.
pub proof fn law_decrease_takes_from_the_balance<T>(
    s: StorageView,
    api: ApiView,
    sender: Seq<char>,
    spender: Seq<char>,
    amount: CoinView,
    expires: Option<Expiration>,
    owner: Seq<u8>,
    account: Seq<u8>,
    list: AdminListView,
    allowance: AllowanceView,
    i: int,
    rest: Seq<CoinView>,
)
    requires
        from_administrator(s, api, sender, owner, list),
        api.canonical_address(spender) == Ok::<_, ErrorView>(account),
        owner != account,
        keeps(s, account, allowance),
        first_in(allowance.balance, amount.denom, i),
        allowance.balance[i].amount <= amount.amount ==> rest == allowance.balance.remove(i),
        allowance.balance[i].amount > amount.amount ==> rest == allowance.balance.update(
            i,
            CoinView {
                denom: amount.denom,
                amount: (allowance.balance[i].amount - amount.amount) as nat,
            },
        ),
    ensures
        ({
            let after = decrease_step::<T>(s, api, sender, spender, amount, expires).0;
            &&& (forall|j: int| 0 <= j < rest.len() ==> (#[trigger] rest[j]).amount == 0)
                ==> !after.allowances.contains_key(account)
            &&& (exists|j: int| 0 <= j < rest.len() && (#[trigger] rest[j]).amount > 0) ==> {
                &&& after.allowances.contains_key(account)
                &&& after.allowances[account] is Ok
                &&& after.allowances[account]->Ok_0.balance == rest
                &&& expires matches Some(end) ==> after.allowances[account]->Ok_0.expires == end
                &&& expires is None ==> after.allowances[account]->Ok_0.expires
                    == allowance.expires
            }
        }),
{
    law_the_first_place_decides(allowance.balance, amount, i);
    assert(balance_minus_saturating(allowance.balance, amount) == Ok::<_, ErrorView>(rest));
}

/// After a change of an allowance that is carried out and leaves coins, asking for
/// it shows the end that was given with the change, whichever that is, or the end
/// that was shown before if none was given.
pub proof fn law_given_ends_are_shown(
    s: StorageView,
    api: ApiView,
    sender: Seq<char>,
    spender: HumanAddr,
    amount: Coin,
    expires: Option<Expiration>,
    account: Seq<u8>,
)
    requires
        api.canonical_address(spender@) == Ok::<_, ErrorView>(account),
    ensures
        ({
            let ask = QueryMsg::Allowance { spender };
            let before = query_answer(s, api, ask);
            let (more, given) = handle_step(
                s,
                api,
                sender,
                HandleMsg::IncreaseAllowance { spender, amount, expires },
            );
            let (less, taken) = handle_step(
                s,
                api,
                sender,
                HandleMsg::DecreaseAllowance { spender, amount, expires },
            );
            &&& given is Ok ==> match (before, query_answer(more, api, ask)) {
                (
                    Ok(QueryResponseView::Allowance(old)),
                    Ok(QueryResponseView::Allowance(new)),
                ) => match expires {
                    Some(end) => new.expires == end,
                    None => new.expires == old.expires,
                },
                _ => false,
            }
            &&& taken is Ok && less.allowances.contains_key(account) ==> match (
                before,
                query_answer(less, api, ask),
            ) {
                (
                    Ok(QueryResponseView::Allowance(old)),
                    Ok(QueryResponseView::Allowance(new)),
                ) => match expires {
                    Some(end) => new.expires == end,
                    None => new.expires == old.expires,
                },
                _ => false,
            }
        }),
{
}

/// Asking for an allowance shows the one that is kept for the spender's account as
/// it is: all its coins, in order, and its end. An account for which none is kept
/// has no coins and no end. A record that cannot be read and an unknown spender are
/// answered with their errors.
pub proof fn law_queries_show_the_allowance(
    s: StorageView,
    api: ApiView,
    spender: HumanAddr,
    account: Seq<u8>,
)
    ensures
        ({
            let shown = query_answer(s, api, QueryMsg::Allowance { spender });
            let answer = allowance_answer(s, api, spender@);
            let known = api.canonical_address(spender@) == Ok::<_, ErrorView>(account);
            &&& api.canonical_address(spender@) matches Err(error) ==> {
                &&& shown == Err::<QueryResponseView, _>(error)
                &&& answer == Err::<AllowanceView, _>(error)
            }
            &&& known && s.allowances.contains_key(account) ==> match s.allowances[account] {
                Ok(kept) => {
                    &&& shown == Ok::<_, ErrorView>(QueryResponseView::Allowance(kept))
                    &&& answer == Ok::<_, ErrorView>(kept)
                },
                Err(error) => {
                    &&& shown == Err::<QueryResponseView, _>(error)
                    &&& answer == Err::<AllowanceView, _>(error)
                },
            }
            &&& known && !s.allowances.contains_key(account) ==> {
                let none = AllowanceView {
                    balance: Seq::empty(),
                    expires: Expiration::Never {  },
                };
                &&& shown == Ok::<_, ErrorView>(QueryResponseView::Allowance(none))
                &&& answer == Ok::<_, ErrorView>(none)
            }
        }),
{
}

/// Asking for the administrators shows the human forms of all that are listed, in
/// order, and whether the list may change. A list that cannot be read is answered
/// with its error, and else the first account without a human form is with the
/// codec's.
pub proof fn law_queries_show_the_administrators(s: StorageView, api: ApiView, k: int)
    ensures
        ({
            let shown = query_answer(s, api, QueryMsg::AdminList {  });
            let answer = admin_list_answer(s, api);
            &&& shown == match answer {
                Ok(list) => Ok::<_, ErrorView>(QueryResponseView::AdminList(list)),
                Err(error) => Err(error),
            }
            &&& s.admin_list matches Err(error) ==> answer == Err::<AdminListResponseView, _>(error)
            &&& s.admin_list matches Ok(list) ==> {
                &&& (forall|i: int|
                    0 <= i < list.admins.len() ==> api.human_address(
                        #[trigger] list.admins[i],
                    ) is Ok) ==> {
                    &&& answer is Ok
                    &&& answer->Ok_0.mutable == list.mutable
                    &&& answer->Ok_0.admins.len() == list.admins.len()
                    &&& forall|i: int|
                        0 <= i < list.admins.len() ==> api.human_address(#[trigger] list.admins[i])
                            == Ok::<_, ErrorView>(answer->Ok_0.admins[i])
                }
                &&& 0 <= k < list.admins.len() && api.human_address(list.admins[k]) is Err && (
                forall|j: int| 0 <= j < k ==> api.human_address(#[trigger] list.admins[j]) is Ok)
                    ==> answer == Err::<AdminListResponseView, _>(
                    api.human_address(list.admins[k])->Err_0,
                )
            }
        }),
{
    match s.admin_list {
        Ok(list) => {
            law_human_forms_are_found_account_by_account(api, list.admins);
        },
        Err(_) => {},
    }
}

/// Any administrator of a list that may change can freeze it. Then it names the
/// same accounts in the same order and may not change any more, and no other record
/// changes. No one else can, and nobody can freeze a list that may not change.
pub proof fn law_any_administrator_can_freeze(
    s: StorageView,
    api: ApiView,
    sender: Seq<char>,
    owner: Seq<u8>,
    list: AdminListView,
)
    ensures
        ({
            let (after, answer) = handle_step(s, api, sender, HandleMsg::Freeze {  });
            &&& (after, answer) == freeze_step(s, api, sender)
            &&& s.admin_list matches Err(error) ==> (after, answer) == (
                s,
                Err::<ResponseView<Empty>, _>(error),
            )
            &&& s.admin_list is Ok ==> (api.canonical_address(sender) matches Err(error) ==> (
                after,
                answer,
            ) == (s, Err::<ResponseView<Empty>, _>(error)))
            &&& from_administrator(s, api, sender, owner, list) && list.mutable ==> {
                &&& answer == Ok::<_, ErrorView>(
                    ResponseView::<Empty> {
                        messages: Seq::empty(),
                        log: seq![LogView { key: "action"@, value: "freeze"@ }],
                        data: None,
                    },
                )
                &&& after.admin_list is Ok
                &&& after.admin_list->Ok_0.admins == list.admins
                &&& !after.admin_list->Ok_0.mutable
                &&& after.allowances == s.allowances
                &&& after.contract_info == s.contract_info
            }
            &&& from_other(s, api, sender, owner, list) || (from_administrator(
                s,
                api,
                sender,
                owner,
                list,
            ) && !list.mutable) ==> (after, answer) == (
                s,
                Err::<ResponseView<Empty>, _>(ErrorView::Unauthorized),
            )
        }),
{
}

/// Any administrator of a list that may change can replace it by any accounts that
/// the codec knows. Then it names these in their order and may still change, and no
/// other record changes. If the codec knows one of them not, the first such decides
/// the answer, and nothing changes. No one else can, and nobody can replace a list
/// that may not change.
pub proof fn law_any_administrator_can_replace_the_list(
    s: StorageView,
    api: ApiView,
    sender: Seq<char>,
    owner: Seq<u8>,
    list: AdminListView,
    names: Seq<Seq<char>>,
    k: int,
)
    ensures
        ({
            let (after, answer) = update_admins_step(s, api, sender, names);
            &&& s.admin_list matches Err(error) ==> (after, answer) == (
                s,
                Err::<ResponseView<Empty>, _>(error),
            )
            &&& s.admin_list is Ok ==> (api.canonical_address(sender) matches Err(error) ==> (
                after,
                answer,
            ) == (s, Err::<ResponseView<Empty>, _>(error)))
            &&& from_administrator(s, api, sender, owner, list) && list.mutable ==> {
                &&& after.allowances == s.allowances
                &&& after.contract_info == s.contract_info
                &&& (forall|i: int|
                    0 <= i < names.len() ==> api.canonical_address(#[trigger] names[i]) is Ok) ==> {
                    &&& answer == Ok::<_, ErrorView>(
                        ResponseView::<Empty> {
                            messages: Seq::empty(),
                            log: seq![LogView { key: "action"@, value: "update_admins"@ }],
                            data: None,
                        },
                    )
                    &&& after.admin_list is Ok
                    &&& after.admin_list->Ok_0.mutable
                    &&& after.admin_list->Ok_0.admins.len() == names.len()
                    &&& forall|i: int|
                        0 <= i < names.len() ==> api.canonical_address(#[trigger] names[i])
                            == Ok::<_, ErrorView>(after.admin_list->Ok_0.admins[i])
                }
                &&& 0 <= k < names.len() && api.canonical_address(names[k]) is Err && (forall|
                    j: int,
                |
                    0 <= j < k ==> api.canonical_address(#[trigger] names[j]) is Ok) ==> (
                    after,
                    answer,
                ) == (s, Err::<ResponseView<Empty>, _>(api.canonical_address(names[k])->Err_0))
            }
            &&& from_other(s, api, sender, owner, list) || (from_administrator(
                s,
                api,
                sender,
                owner,
                list,
            ) && !list.mutable) ==> (after, answer) == (
                s,
                Err::<ResponseView<Empty>, _>(ErrorView::Unauthorized),
            )
        }),
{
    law_canonical_forms_are_found_name_by_name(api, names);
}

/// Setting the contract up succeeds for any names that the codec knows: then their
/// accounts are the administrators, in order, and the list may change if that was
/// asked for. If the codec knows one of them not, the first such decides the answer,
/// and the list stays what it was. Either way the records are noted under the name
/// and the version of the list, and no allowance changes.
pub proof fn law_setting_up_names_the_administrators(
    s: StorageView,
    api: ApiView,
    names: Seq<Seq<char>>,
    mutable: bool,
    k: int,
)
    ensures
        ({
            let (after, answer) = init_step(
                s.with_contract_info(contract_version()),
                api,
                names,
                mutable,
            );
            &&& (after, answer) == init_step(s, api, names, mutable)
            &&& after.contract_info == Some(
                ContractVersionView { contract: "crates.io:cw1-whitelist"@, version: "v0.1.0"@ },
            )
            &&& after.allowances == s.allowances
            &&& (forall|i: int|
                0 <= i < names.len() ==> api.canonical_address(#[trigger] names[i]) is Ok) ==> {
                &&& answer == Ok::<_, ErrorView>(
                    InitResponseView { messages: Seq::empty(), log: Seq::empty() },
                )
                &&& after.admin_list is Ok
                &&& after.admin_list->Ok_0.mutable == mutable
                &&& after.admin_list->Ok_0.admins.len() == names.len()
                &&& forall|i: int|
                    0 <= i < names.len() ==> api.canonical_address(#[trigger] names[i]) == Ok::<
                        _,
                        ErrorView,
                    >(after.admin_list->Ok_0.admins[i])
            }
            &&& 0 <= k < names.len() && api.canonical_address(names[k]) is Err && (forall|j: int|
                0 <= j < k ==> api.canonical_address(#[trigger] names[j]) is Ok) ==> {
                &&& answer == Err::<InitResponseView, _>(api.canonical_address(names[k])->Err_0)
                &&& after.admin_list == s.admin_list
            }
        }),
{
    law_canonical_forms_are_found_name_by_name(api, names);
}

} // verus!
