//! What holds of the contract as a whole.
use vstd::prelude::*;

use crate::api::ApiView;
use crate::balance_laws::{
    at_most_held, coins_total, distinct, held, law_empty_holds_nothing,
    law_minus_saturating_takes_at_most, law_minus_undoes_plus, law_plus_commutes,
    law_plus_keeps_sorted, lists, sorted,
};
use crate::coin::{balance_is_empty, balance_minus_saturating, balance_plus, CoinView};
use crate::contract::{
    allowance_answer, changed, contract_version, decrease_step, execute_step, grant_parties,
    handle_step, increase_step, lemma_spend_msgs_stops, new_expiration, or_no_allowance, relayed,
    spend_msgs,
};
use crate::error::{underflow_view, ErrorView};
use crate::msg::{sent_coins, AdminListResponseView, CosmosMsg, Empty, HandleMsg, ResponseView};
use crate::spending_laws::{
    all_sent, all_transfers, law_coins_are_paid_if_payable, law_messages_are_paid_coin_by_coin,
    law_messages_are_paid_exactly, law_transfers_that_are_held_are_paid, msgs_total, payable,
    sends_positive,
};
use crate::state::{no_allowance, AdminListView, AllowanceView, Expiration, StorageView};
use crate::whitelist::{
    admin_list_answer, canonical_all, freeze_step, human_all, init_step, update_admins_step,
    whitelist_version,
};

verus! {

/// `sender` is an administrator.
pub open spec fn is_administrator(s: StorageView, api: ApiView, sender: Seq<char>) -> bool {
    &&& s.admin_list is Ok
    &&& api.canonical_address(sender) is Ok
    &&& s.admin_list->Ok_0.is_admin(api.canonical_address(sender)->Ok_0)
}

/// `sender` is known to be the account `owner`, and no administrator.
pub open spec fn is_other(
    s: StorageView,
    api: ApiView,
    sender: Seq<char>,
    owner: Seq<u8>,
) -> bool {
    &&& s.admin_list is Ok
    &&& api.canonical_address(sender) == Ok::<_, ErrorView>(owner)
    &&& !s.admin_list->Ok_0.is_admin(owner)
}

/// How much of `denom` the allowance of `account` holds: the sum over all places
/// that list it.
pub open spec fn held_by(s: StorageView, account: Seq<u8>, denom: Seq<char>) -> nat {
    match s.allowance_of(account) {
        Ok(Some(allowance)) => coins_total(allowance.balance, denom),
        _ => 0,
    }
}

/// The balances of all allowances that are kept are sorted.
pub open spec fn balances_sorted(s: StorageView) -> bool {
    forall|account: Seq<u8>|
        (#[trigger] s.allowance_of(account)) matches Ok(Some(allowance)) ==> sorted(
            allowance.balance,
        )
}

/// An administrator has any messages relayed, and the records do not change.
pub proof fn law_administrators_relay_anything<T>(
    s: StorageView,
    api: ApiView,
    sender: Seq<char>,
    msgs: Seq<CosmosMsg<T>>,
)
    requires
        is_administrator(s, api, sender),
    ensures
        execute_step(s, api, sender, msgs) == (s, Ok::<_, ErrorView>(relayed(msgs, sender))),
{
}

/// Messages are relayed as they were given, all of them and in their order, or
/// not at all.
pub proof fn law_messages_are_relayed_unaltered<T>(
    s: StorageView,
    api: ApiView,
    sender: Seq<char>,
    msgs: Seq<CosmosMsg<T>>,
)
    ensures
        execute_step(s, api, sender, msgs).1 matches Ok(response) ==> response == relayed(
            msgs,
            sender,
        ) && response.messages == msgs,
{
}

/// Nothing is relayed for an account that is no administrator and has no
/// allowance, and the records do not change.
pub proof fn law_no_allowance_relays_nothing<T>(
    s: StorageView,
    api: ApiView,
    sender: Seq<char>,
    owner: Seq<u8>,
    msgs: Seq<CosmosMsg<T>>,
)
    requires
        is_other(s, api, sender, owner),
        s.allowance_of(owner) == Ok::<Option<AllowanceView>, ErrorView>(None),
    ensures
        execute_step(s, api, sender, msgs) == (
            s,
            Err::<ResponseView<T>, _>(
                ErrorView::NotFound { kind: "No allowance for this account"@ },
            ),
        ),
{
}

/// What is relayed for an account that is no administrator are transfers, and
/// exactly what they send is taken from its allowance, which held that much.
pub proof fn law_others_spend_their_allowance<T>(
    s: StorageView,
    api: ApiView,
    sender: Seq<char>,
    owner: Seq<u8>,
    msgs: Seq<CosmosMsg<T>>,
    denom: Seq<char>,
)
    requires
        is_other(s, api, sender, owner),
        execute_step(s, api, sender, msgs).1 is Ok,
    ensures
        all_transfers(msgs),
        held_by(execute_step(s, api, sender, msgs).0, owner, denom) + msgs_total(msgs, denom)
            == held_by(s, owner, denom),
{
    let allowance = s.allowance_of(owner)->Ok_0->Some_0;
    assert(s.allowance_of(owner) == Ok::<_, ErrorView>(Some(allowance)));
    law_messages_are_paid_exactly(allowance, msgs, denom);
}

/// Messages are relayed for an account with an allowance that lists no denomination
/// twice if and only if they are transfers and the coins that they send are payable
/// from its balance.
pub proof fn law_others_are_relayed_what_they_can_pay<T>(
    s: StorageView,
    api: ApiView,
    sender: Seq<char>,
    owner: Seq<u8>,
    allowance: AllowanceView,
    msgs: Seq<CosmosMsg<T>>,
)
    requires
        is_other(s, api, sender, owner),
        s.allowance_of(owner) == Ok::<_, ErrorView>(Some(allowance)),
        distinct(allowance.balance),
    ensures
        execute_step(s, api, sender, msgs).1 is Ok <==> all_transfers(msgs) && payable(
            allowance.balance,
            all_sent(msgs),
        ),
{
    law_messages_are_paid_coin_by_coin(allowance, msgs);
    law_coins_are_paid_if_payable(allowance.balance, all_sent(msgs), Seq::empty());
}

/// Transfers whose sum an allowance holds are relayed for its account, if it lists
/// no denomination twice and none of them sends an amount of nothing.
pub proof fn law_transfers_within_the_allowance_are_relayed<T>(
    s: StorageView,
    api: ApiView,
    sender: Seq<char>,
    owner: Seq<u8>,
    allowance: AllowanceView,
    msgs: Seq<CosmosMsg<T>>,
)
    requires
        is_other(s, api, sender, owner),
        s.allowance_of(owner) == Ok::<_, ErrorView>(Some(allowance)),
        distinct(allowance.balance),
        all_transfers(msgs),
        sends_positive(msgs),
        forall|denom: Seq<char>| #[trigger]
            msgs_total(msgs, denom) <= held(allowance.balance, denom),
    ensures
        execute_step(s, api, sender, msgs).1 == Ok::<_, ErrorView>(relayed(msgs, sender)),
{
    law_transfers_that_are_held_are_paid(allowance, msgs);
}

/// A message that is no transfer is refused to an account that is no
/// administrator, whatever its allowance; the transfers before it stay paid.
pub proof fn law_other_messages_are_rejected<T>(
    s: StorageView,
    api: ApiView,
    sender: Seq<char>,
    owner: Seq<u8>,
    allowance: AllowanceView,
    msgs: Seq<CosmosMsg<T>>,
    k: int,
)
    requires
        is_other(s, api, sender, owner),
        s.allowance_of(owner) == Ok::<_, ErrorView>(Some(allowance)),
        0 <= k < msgs.len(),
        spend_msgs(allowance, msgs.take(k)).1 is Ok,
        sent_coins(msgs[k]) is None,
    ensures
        execute_step(s, api, sender, msgs) == (
            s.with_allowance(owner, spend_msgs(allowance, msgs.take(k)).0),
            Err::<ResponseView<T>, _>(
                ErrorView::GenericErr { msg: "Message type rejected"@ },
            ),
        ),
{
    assert(msgs.take(k + 1).drop_last() =~= msgs.take(k));
    lemma_spend_msgs_stops(allowance, msgs, k);
}

/// Whatever messages an account has relayed or refused, its allowance does not
/// grow.
pub proof fn law_execute_grants_nothing<T>(
    s: StorageView,
    api: ApiView,
    sender: Seq<char>,
    msgs: Seq<CosmosMsg<T>>,
    account: Seq<u8>,
    denom: Seq<char>,
)
    ensures
        held_by(execute_step(s, api, sender, msgs).0, account, denom) <= held_by(
            s,
            account,
            denom,
        ),
{
    match s.allowance_of(account) {
        Ok(Some(allowance)) => {
            law_messages_are_paid_exactly(allowance, msgs, denom);
        },
        _ => {},
    }
}

/// Only an administrator changes allowances. Any other sender whose name and
/// whose choice of an account the codec knows is told so, and nothing changes.
pub proof fn law_only_administrators_change_allowances<T>(
    s: StorageView,
    api: ApiView,
    sender: Seq<char>,
    spender: Seq<char>,
    amount: CoinView,
    expires: Option<Expiration>,
)
    requires
        !is_administrator(s, api, sender),
    ensures
        increase_step::<T>(s, api, sender, spender, amount, expires).0 == s,
        decrease_step::<T>(s, api, sender, spender, amount, expires).0 == s,
        increase_step::<T>(s, api, sender, spender, amount, expires).1 is Err,
        decrease_step::<T>(s, api, sender, spender, amount, expires).1 is Err,
        s.admin_list is Ok && api.canonical_address(sender) is Ok && api.canonical_address(
            spender,
        ) is Ok ==> {
            &&& increase_step::<T>(s, api, sender, spender, amount, expires).1 == Err::<
                ResponseView<T>,
                _,
            >(ErrorView::Unauthorized)
            &&& decrease_step::<T>(s, api, sender, spender, amount, expires).1 == Err::<
                ResponseView<T>,
                _,
            >(ErrorView::Unauthorized)
        },
{
}

/// An administrator cannot change an allowance of the own account.
pub proof fn law_no_allowance_for_the_own_account<T>(
    s: StorageView,
    api: ApiView,
    sender: Seq<char>,
    spender: Seq<char>,
    amount: CoinView,
    expires: Option<Expiration>,
)
    requires
        is_administrator(s, api, sender),
        api.canonical_address(spender) == api.canonical_address(sender),
    ensures
        increase_step::<T>(s, api, sender, spender, amount, expires) == (
            s,
            Err::<ResponseView<T>, _>(
                ErrorView::GenericErr { msg: "Cannot set allowance to own account"@ },
            ),
        ),
        decrease_step::<T>(s, api, sender, spender, amount, expires) == (
            s,
            Err::<ResponseView<T>, _>(
                ErrorView::GenericErr { msg: "Cannot set allowance to own account"@ },
            ),
        ),
{
}

/// An administrator increases the allowance of any other account whose record can
/// be read, whether or not it has an allowance yet.
pub proof fn law_administrators_increase_allowances<T>(
    s: StorageView,
    api: ApiView,
    sender: Seq<char>,
    spender: Seq<char>,
    account: Seq<u8>,
    amount: CoinView,
    expires: Option<Expiration>,
)
    requires
        is_administrator(s, api, sender),
        api.canonical_address(spender) == Ok::<_, ErrorView>(account),
        api.canonical_address(spender) != api.canonical_address(sender),
        s.allowance_of(account) is Ok,
    ensures
        increase_step::<T>(s, api, sender, spender, amount, expires).1 == Ok::<_, ErrorView>(
            changed::<T>("increase_allowance"@, sender, spender, amount),
        ),
{
}

/// An administrator decreases the allowance of any other account by any amount of
/// a denomination that it lists, be it more than it holds. Exactly that amount is
/// gone, or all that the first place of it held. Of a denomination that it does not
/// list, and of an account without an allowance, nothing is taken, and
/// the answer is an error.
pub proof fn law_administrators_decrease_allowances<T>(
    s: StorageView,
    api: ApiView,
    sender: Seq<char>,
    owner: Seq<u8>,
    spender: Seq<char>,
    account: Seq<u8>,
    amount: CoinView,
    expires: Option<Expiration>,
)
    requires
        is_administrator(s, api, sender),
        api.canonical_address(sender) == Ok::<_, ErrorView>(owner),
        api.canonical_address(spender) == Ok::<_, ErrorView>(account),
        owner != account,
    ensures
        ({
            let (after, answer) = decrease_step::<T>(s, api, sender, spender, amount, expires);
            match s.allowance_of(account) {
                Ok(Some(allowance)) => if lists(allowance.balance, amount.denom) {
                    &&& api.human_address(owner) matches Ok(name) ==> answer == Ok::<_, ErrorView>(
                        changed::<T>("decrease_allowance"@, name, spender, amount),
                    )
                    &&& held_by(after, account, amount.denom) + at_most_held(
                        allowance.balance,
                        amount,
                    ).amount == held_by(s, account, amount.denom)
                } else {
                    (after, answer) == (
                        s,
                        Err::<ResponseView<T>, _>(underflow_view(0, amount.amount)),
                    )
                },
                Ok(None) => (after, answer) == (
                    s,
                    Err::<ResponseView<T>, _>(
                        ErrorView::NotFound { kind: "No allowance for this account"@ },
                    ),
                ),
                Err(error) => (after, answer) == (s, Err::<ResponseView<T>, _>(error)),
            }
        }),
{
    match s.allowance_of(account) {
        Ok(Some(allowance)) => {
            law_minus_saturating_takes_at_most(allowance.balance, amount, amount.denom);
            if lists(allowance.balance, amount.denom) {
                let rest = balance_minus_saturating(allowance.balance, amount)->Ok_0;
                law_empty_holds_nothing(rest);
                assert(balance_is_empty(rest) ==> coins_total(rest, amount.denom) == 0);
            }
        },
        _ => {},
    }
}

/// Asking for the allowance of an account that was given none is no error: the
/// answer is an allowance of no coins and no end.
pub proof fn law_no_allowance_is_read_as_an_empty_one(
    s: StorageView,
    api: ApiView,
    spender: Seq<char>,
    account: Seq<u8>,
)
    requires
        api.canonical_address(spender) == Ok::<_, ErrorView>(account),
        s.allowance_of(account) == Ok::<Option<AllowanceView>, ErrorView>(None),
    ensures
        allowance_answer(s, api, spender) == Ok::<_, ErrorView>(no_allowance()),
        balance_is_empty(no_allowance().balance),
{
}

/// A change of an allowance or of the administrators that is refused changes
/// nothing. The one exception is a decrease by an administrator that only could
/// not be reported, because the codec has no human form for the sender.
pub proof fn law_refused_changes_change_nothing(
    s: StorageView,
    api: ApiView,
    sender: Seq<char>,
    msg: HandleMsg<Empty>,
)
    requires
        msg !is Execute,
        handle_step(s, api, sender, msg).1 is Err,
    ensures
        handle_step(s, api, sender, msg).0 == s || {
            &&& msg is DecreaseAllowance
            &&& is_administrator(s, api, sender)
            &&& api.human_address(api.canonical_address(sender)->Ok_0) == Err::<Seq<char>, _>(
                handle_step(s, api, sender, msg).1->Err_0,
            )
        },
{
}

/// After an allowance was increased, asking for it gives the old one with the
/// amount added, and with the new end if one was given.
pub proof fn law_increase_is_read_back<T>(
    s: StorageView,
    api: ApiView,
    sender: Seq<char>,
    spender: Seq<char>,
    amount: CoinView,
    expires: Option<Expiration>,
)
    requires
        increase_step::<T>(s, api, sender, spender, amount, expires).1 is Ok,
    ensures
        allowance_answer(s, api, spender) is Ok,
        allowance_answer(
            increase_step::<T>(s, api, sender, spender, amount, expires).0,
            api,
            spender,
        ) == ({
            let before = allowance_answer(s, api, spender)->Ok_0;
            Ok::<_, ErrorView>(
                AllowanceView {
                    balance: balance_plus(before.balance, amount),
                    expires: new_expiration(expires, before),
                },
            )
        }),
{
}

/// After an allowance was decreased, asking for it gives the old one with the
/// amount taken away, and with the new end if one was given; or, where no coins
/// are left, the allowance of an account that was given none.
pub proof fn law_decrease_is_read_back<T>(
    s: StorageView,
    api: ApiView,
    sender: Seq<char>,
    spender: Seq<char>,
    amount: CoinView,
    expires: Option<Expiration>,
)
    requires
        decrease_step::<T>(s, api, sender, spender, amount, expires).1 is Ok,
    ensures
        allowance_answer(s, api, spender) is Ok,
        ({
            let before = allowance_answer(s, api, spender)->Ok_0;
            let rest = balance_minus_saturating(before.balance, amount);
            &&& rest is Ok
            &&& allowance_answer(
                decrease_step::<T>(s, api, sender, spender, amount, expires).0,
                api,
                spender,
            ) == Ok::<_, ErrorView>(
                if balance_is_empty(rest->Ok_0) {
                    no_allowance()
                } else {
                    AllowanceView {
                        balance: rest->Ok_0,
                        expires: new_expiration(expires, before),
                    }
                },
            )
        }),
{
}

/// A decrease never leaves an allowance without coins behind.
pub proof fn law_decrease_keeps_no_empty_allowance<T>(
    s: StorageView,
    api: ApiView,
    sender: Seq<char>,
    spender: Seq<char>,
    account: Seq<u8>,
    amount: CoinView,
    expires: Option<Expiration>,
)
    requires
        decrease_step::<T>(s, api, sender, spender, amount, expires).1 is Ok,
        api.canonical_address(spender) == Ok::<_, ErrorView>(account),
    ensures
        decrease_step::<T>(s, api, sender, spender, amount, expires).0.allowance_of(
            account,
        ) matches Ok(Some(allowance)) ==> !balance_is_empty(allowance.balance),
{
}

/// A decrease by the amount of the last increase gives the records back, if no
/// end was set; and it is carried out and reported, if the codec has a human form
/// for the sender. Left out are allowances that hold no coins and those that list the
/// denomination with an amount of nothing: the decrease takes these out.
pub proof fn law_decrease_undoes_increase<T>(
    s: StorageView,
    api: ApiView,
    sender: Seq<char>,
    spender: Seq<char>,
    account: Seq<u8>,
    amount: CoinView,
)
    requires
        api.canonical_address(spender) == Ok::<_, ErrorView>(account),
        s.allowance_of(account) matches Ok(Some(allowance)) ==> {
            &&& !balance_is_empty(allowance.balance)
            &&& lists(allowance.balance, amount.denom) ==> held(allowance.balance, amount.denom)
                > 0
        },
        increase_step::<T>(s, api, sender, spender, amount, None).1 is Ok,
    ensures
        decrease_step::<T>(
            increase_step::<T>(s, api, sender, spender, amount, None).0,
            api,
            sender,
            spender,
            amount,
            None,
        ).0 =~= s,
        api.human_address(api.canonical_address(sender)->Ok_0) matches Ok(owner) ==> decrease_step::<
            T,
        >(
            increase_step::<T>(s, api, sender, spender, amount, None).0,
            api,
            sender,
            spender,
            amount,
            None,
        ).1 == Ok::<_, ErrorView>(changed::<T>("decrease_allowance"@, owner, spender, amount)),
{
    let before = or_no_allowance(s.allowance_of(account)->Ok_0);
    assert(!lists(Seq::<CoinView>::empty(), amount.denom));
    law_minus_undoes_plus(before.balance, amount);
    let t = increase_step::<T>(s, api, sender, spender, amount, None).0;
    assert(grant_parties(t, api, sender, spender) == grant_parties(s, api, sender, spender));
    let u = decrease_step::<T>(t, api, sender, spender, amount, None).0;
    assert(u.allowances =~= s.allowances);
}

/// Two increases lead to the same records and have the same answers in either
/// order, unless they set different ends for one account.
pub proof fn law_increases_commute<T>(
    s: StorageView,
    api: ApiView,
    sender1: Seq<char>,
    spender1: Seq<char>,
    amount1: CoinView,
    expires1: Option<Expiration>,
    sender2: Seq<char>,
    spender2: Seq<char>,
    amount2: CoinView,
    expires2: Option<Expiration>,
)
    requires
        expires1 is Some && expires2 is Some && api.canonical_address(spender1)
            == api.canonical_address(spender2) ==> expires1 == expires2,
    ensures
        ({
            let (s1, answer1) = increase_step::<T>(s, api, sender1, spender1, amount1, expires1);
            let (s2, answer2) = increase_step::<T>(s, api, sender2, spender2, amount2, expires2);
            let (s12, later2) = increase_step::<T>(s1, api, sender2, spender2, amount2, expires2);
            let (s21, later1) = increase_step::<T>(s2, api, sender1, spender1, amount1, expires1);
            s12 =~= s21 && answer1 == later1 && answer2 == later2
        }),
{
    let (s1, _) = increase_step::<T>(s, api, sender1, spender1, amount1, expires1);
    let (s2, _) = increase_step::<T>(s, api, sender2, spender2, amount2, expires2);
    let (s12, _) = increase_step::<T>(s1, api, sender2, spender2, amount2, expires2);
    let (s21, _) = increase_step::<T>(s2, api, sender1, spender1, amount1, expires1);
    assert(grant_parties(s1, api, sender2, spender2) == grant_parties(s, api, sender2, spender2));
    assert(grant_parties(s2, api, sender1, spender1) == grant_parties(s, api, sender1, spender1));
    match grant_parties(s, api, sender1, spender1) {
        Ok((_, account)) => {
            let before = or_no_allowance(s.allowance_of(account)->Ok_0);
            law_plus_commutes(before.balance, amount1, amount2);
        },
        Err(_) => {},
    }
    assert(s12.allowances =~= s21.allowances);
}

/// The account whose allowance `msg` is about, if it is about one.
pub open spec fn concerned(
    api: ApiView,
    sender: Seq<char>,
    msg: HandleMsg<Empty>,
) -> Option<Seq<u8>> {
    let named = match msg {
        HandleMsg::Execute { .. } => Some(sender),
        HandleMsg::IncreaseAllowance { spender, .. } => Some(spender@),
        HandleMsg::DecreaseAllowance { spender, .. } => Some(spender@),
        _ => None,
    };
    match named {
        Some(name) => match api.canonical_address(name) {
            Ok(account) => Some(account),
            Err(_) => None,
        },
        None => None,
    }
}

/// A message changes no allowance but the one that it is about. Only freezing and
/// replacing the administrators change those, and they change no allowance.
pub proof fn law_messages_change_only_what_they_are_about(
    s: StorageView,
    api: ApiView,
    sender: Seq<char>,
    msg: HandleMsg<Empty>,
    account: Seq<u8>,
)
    ensures
        handle_step(s, api, sender, msg).0.contract_info == s.contract_info,
        concerned(api, sender, msg) != Some(account) ==> handle_step(
            s,
            api,
            sender,
            msg,
        ).0.allowance_of(account) == s.allowance_of(account),
        msg is Freeze || msg is UpdateAdmins || handle_step(s, api, sender, msg).0.admin_list
            == s.admin_list,
        msg is Freeze || msg is UpdateAdmins ==> handle_step(s, api, sender, msg).0.allowances
            == s.allowances,
{
}

/// The answer to a message, and what it makes of the administrators and of the
/// allowance that it is about, depend on these two records alone.
pub proof fn law_other_records_do_not_matter(
    s: StorageView,
    t: StorageView,
    api: ApiView,
    sender: Seq<char>,
    msg: HandleMsg<Empty>,
)
    requires
        s.admin_list == t.admin_list,
        concerned(api, sender, msg) matches Some(account) ==> s.allowance_of(account)
            == t.allowance_of(account),
    ensures
        handle_step(s, api, sender, msg).1 == handle_step(t, api, sender, msg).1,
        handle_step(s, api, sender, msg).0.admin_list == handle_step(
            t,
            api,
            sender,
            msg,
        ).0.admin_list,
        concerned(api, sender, msg) matches Some(account) ==> handle_step(
            s,
            api,
            sender,
            msg,
        ).0.allowance_of(account) == handle_step(t, api, sender, msg).0.allowance_of(account),
{
}

/// Only an administrator changes the list of administrators, and only while it
/// may change.
pub proof fn law_only_administrators_change_administrators(
    s: StorageView,
    api: ApiView,
    sender: Seq<char>,
    msg: HandleMsg<Empty>,
)
    requires
        handle_step(s, api, sender, msg).0.admin_list != s.admin_list,
    ensures
        is_administrator(s, api, sender),
        s.admin_list->Ok_0.mutable,
{
}

/// Once the list of administrators is frozen, freezing and replacing it are
/// refused, and nothing changes it.
pub proof fn law_frozen_administrators_stay(
    s: StorageView,
    api: ApiView,
    sender: Seq<char>,
    msg: HandleMsg<Empty>,
)
    requires
        s.admin_list is Ok,
        !s.admin_list->Ok_0.mutable,
    ensures
        handle_step(s, api, sender, msg).0.admin_list == s.admin_list,
        (msg is Freeze || msg is UpdateAdmins) && api.canonical_address(sender) is Ok
            ==> handle_step(s, api, sender, msg) == (
            s,
            Err::<ResponseView<Empty>, _>(ErrorView::Unauthorized),
        ),
{
}

/// Freezing keeps the administrators and makes their list unchangeable.
pub proof fn law_freeze_freezes(s: StorageView, api: ApiView, sender: Seq<char>)
    requires
        freeze_step(s, api, sender).1 is Ok,
    ensures
        s.admin_list is Ok,
        freeze_step(s, api, sender).0.admin_list == Ok::<_, ErrorView>(
            AdminListView { admins: s.admin_list->Ok_0.admins, mutable: false },
        ),
{
}

/// The codec gives each of `humans` back from its canonical form.
pub open spec fn round_trips(api: ApiView, humans: Seq<Seq<char>>) -> bool {
    forall|i: int|
        #![trigger humans[i]]
        0 <= i < humans.len() ==> {
            &&& api.canonical_address(humans[i]) is Ok
            &&& api.human_address(api.canonical_address(humans[i])->Ok_0) == Ok::<_, ErrorView>(
                humans[i],
            )
        }
}

proof fn lemma_round_trip(api: ApiView, humans: Seq<Seq<char>>)
    requires
        round_trips(api, humans),
    ensures
        canonical_all(api, humans) is Ok,
        human_all(api, canonical_all(api, humans)->Ok_0) == Ok::<_, ErrorView>(humans),
    decreases humans.len(),
{
    if humans.len() > 0 {
        let earlier = humans.drop_last();
        assert forall|i: int| #![trigger earlier[i]] 0 <= i < earlier.len() implies {
            &&& api.canonical_address(earlier[i]) is Ok
            &&& api.human_address(api.canonical_address(earlier[i])->Ok_0) == Ok::<_, ErrorView>(
                earlier[i],
            )
        } by {
            assert(earlier[i] == humans[i]);
        }
        lemma_round_trip(api, earlier);
        let accounts = canonical_all(api, earlier)->Ok_0;
        let last = humans[humans.len() - 1];
        let account = api.canonical_address(last)->Ok_0;
        assert(canonical_all(api, humans) == Ok::<_, ErrorView>(accounts.push(account)));
        assert(accounts.push(account).drop_last() =~= accounts);
        assert(earlier.push(last) =~= humans);
    } else {
        assert(humans =~= Seq::empty());
    }
}

/// After the contract was set up, asking for the administrators gives those that
/// it was set up with, for names that the codec gives back.
pub proof fn law_first_administrators_are_read_back(
    s: StorageView,
    api: ApiView,
    admins: Seq<Seq<char>>,
    mutable: bool,
)
    requires
        round_trips(api, admins),
    ensures
        init_step(s, api, admins, mutable).1 is Ok,
        admin_list_answer(init_step(s, api, admins, mutable).0, api) == Ok::<_, ErrorView>(
            AdminListResponseView { admins, mutable },
        ),
{
    lemma_round_trip(api, admins);
}

/// After the administrators were replaced, asking for them gives the new ones, for
/// names that the codec gives back; whether the list may change stays as it was.
pub proof fn law_new_administrators_are_read_back(
    s: StorageView,
    api: ApiView,
    sender: Seq<char>,
    admins: Seq<Seq<char>>,
)
    requires
        round_trips(api, admins),
        is_administrator(s, api, sender),
        s.admin_list->Ok_0.mutable,
    ensures
        update_admins_step(s, api, sender, admins).1 is Ok,
        admin_list_answer(update_admins_step(s, api, sender, admins).0, api) == Ok::<
            _,
            ErrorView,
        >(AdminListResponseView { admins, mutable: true }),
{
    lemma_round_trip(api, admins);
}

proof fn lemma_canonical_all_elements(api: ApiView, humans: Seq<Seq<char>>)
    requires
        canonical_all(api, humans) is Ok,
    ensures
        canonical_all(api, humans)->Ok_0.len() == humans.len(),
        forall|i: int|
            0 <= i < humans.len() ==> api.canonical_address(#[trigger] humans[i]) == Ok::<
                _,
                ErrorView,
            >(canonical_all(api, humans)->Ok_0[i]),
    decreases humans.len(),
{
    if humans.len() > 0 {
        lemma_canonical_all_elements(api, humans.drop_last());
        assert forall|i: int| 0 <= i < humans.len() implies api.canonical_address(
            #[trigger] humans[i],
        ) == Ok::<_, ErrorView>(canonical_all(api, humans)->Ok_0[i]) by {
            if i < humans.len() - 1 {
                assert(humans.drop_last()[i] == humans[i]);
            }
        }
    }
}

/// After the administrators were replaced, exactly the accounts that were named
/// are administrators.
pub proof fn law_new_administrators_replace_the_old(
    s: StorageView,
    api: ApiView,
    sender: Seq<char>,
    admins: Seq<Seq<char>>,
    name: Seq<char>,
    account: Seq<u8>,
)
    requires
        update_admins_step(s, api, sender, admins).1 is Ok,
        api.canonical_address(name) == Ok::<_, ErrorView>(account),
    ensures
        is_administrator(update_admins_step(s, api, sender, admins).0, api, name) <==> exists|
            i: int,
        |
            0 <= i < admins.len() && api.canonical_address(#[trigger] admins[i]) == Ok::<
                _,
                ErrorView,
            >(account),
{
    lemma_canonical_all_elements(api, admins);
    let accounts = canonical_all(api, admins)->Ok_0;
    if accounts.contains(account) {
        let i = choose|i: int| 0 <= i < accounts.len() && accounts[i] == account;
        assert(api.canonical_address(admins[i]) == Ok::<_, ErrorView>(account));
    }
    if exists|i: int|
        0 <= i < admins.len() && api.canonical_address(#[trigger] admins[i]) == Ok::<
            _,
            ErrorView,
        >(account) {
        let i = choose|i: int|
            0 <= i < admins.len() && api.canonical_address(#[trigger] admins[i]) == Ok::<
                _,
                ErrorView,
            >(account);
        assert(accounts[i] == account);
    }
}

/// Setting the contract up leaves the name and the version of the list of
/// administrators, which is set up last, as the ones that the records belong to;
/// and it changes no allowance.
pub proof fn law_setup_ends_with_the_name_of_the_list(
    s: StorageView,
    api: ApiView,
    admins: Seq<Seq<char>>,
    mutable: bool,
)
    ensures
        init_step(
            s.with_contract_info(contract_version()),
            api,
            admins,
            mutable,
        ).0.contract_info == Some(whitelist_version()),
        init_step(s.with_contract_info(contract_version()), api, admins, mutable) == init_step(
            s,
            api,
            admins,
            mutable,
        ),
        init_step(s, api, admins, mutable).0.allowances == s.allowances,
{
}

/// No message makes a sorted balance unsorted.
pub proof fn law_balances_stay_sorted(
    s: StorageView,
    api: ApiView,
    sender: Seq<char>,
    msg: HandleMsg<Empty>,
)
    requires
        balances_sorted(s),
    ensures
        balances_sorted(handle_step(s, api, sender, msg).0),
{
    let t = handle_step(s, api, sender, msg).0;
    assert forall|account: Seq<u8>|
        (#[trigger] t.allowance_of(account)) matches Ok(Some(allowance)) implies sorted(
        t.allowance_of(account)->Ok_0->Some_0.balance,
    ) by {
        law_messages_change_only_what_they_are_about(s, api, sender, msg, account);
        assert(s.allowance_of(account) matches Ok(Some(allowance)) ==> sorted(allowance.balance));
        let before = or_no_allowance(s.allowance_of(account)->Ok_0);
        match msg {
            HandleMsg::Execute { msgs } => {
                if s.allowance_of(account) is Ok && s.allowance_of(account)->Ok_0 is Some {
                    law_messages_are_paid_exactly(before, msgs@, Seq::empty());
                }
            },
            HandleMsg::IncreaseAllowance { spender, amount, expires } => {
                if s.allowance_of(account) is Ok {
                    law_plus_keeps_sorted(before.balance, amount@);
                }
            },
            HandleMsg::DecreaseAllowance { spender, amount, expires } => {
                if s.allowance_of(account) is Ok {
                    law_minus_saturating_takes_at_most(before.balance, amount@, Seq::empty());
                }
            },
            _ => {},
        }
    }
}

} // verus!
