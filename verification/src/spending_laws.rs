//! What holds of paying for messages with an allowance.
use vstd::prelude::*;

use crate::balance_laws::{
    coins_total, distinct, held, law_minus_takes_exactly, law_places_hold_part_of_the_sum,
    lemma_place_of, lists, sorted,
};
use crate::coin::CoinView;
use crate::contract::{spend_coins, spend_msgs};
use crate::error::ErrorView;
use crate::msg::{sent_coins, CosmosMsg};
use crate::state::AllowanceView;

verus! {

/// The sum of what `msg` sends in `denom`; what is no transfer sends nothing.
pub open spec fn msg_total<T>(msg: CosmosMsg<T>, denom: Seq<char>) -> nat {
    match sent_coins(msg) {
        Some(coins) => coins_total(coins, denom),
        None => 0,
    }
}

/// The sum of what `msgs` send in `denom`.
pub open spec fn msgs_total<T>(msgs: Seq<CosmosMsg<T>>, denom: Seq<char>) -> nat
    decreases msgs.len(),
{
    if msgs.len() == 0 {
        0
    } else {
        msgs_total(msgs.drop_last(), denom) + msg_total(msgs.last(), denom)
    }
}

/// All of `msgs` are transfers.
pub open spec fn all_transfers<T>(msgs: Seq<CosmosMsg<T>>) -> bool {
    forall|i: int| 0 <= i < msgs.len() ==> sent_coins(#[trigger] msgs[i]) is Some
}

/// None of `coins` is an amount of nothing.
pub open spec fn all_positive(coins: Seq<CoinView>) -> bool {
    forall|i: int| 0 <= i < coins.len() ==> (#[trigger] coins[i]).amount > 0
}

/// No transfer among `msgs` sends an amount of nothing.
pub open spec fn sends_positive<T>(msgs: Seq<CosmosMsg<T>>) -> bool {
    forall|i: int|
        0 <= i < msgs.len() ==> (sent_coins(#[trigger] msgs[i]) matches Some(coins)
            ==> all_positive(coins))
}

/// Paying coins takes exactly their sum out of a balance, denomination by
/// denomination. A sorted balance stays sorted, and distinct denominations stay
/// distinct.
pub proof fn law_coins_are_paid_exactly(b: Seq<CoinView>, coins: Seq<CoinView>, denom: Seq<char>)
    ensures
        spend_coins(b, coins) matches Ok(rest) ==> {
            &&& coins_total(rest, denom) + coins_total(coins, denom) == coins_total(b, denom)
            &&& sorted(b) ==> sorted(rest)
            &&& distinct(b) ==> distinct(rest)
        },
    decreases coins.len(),
{
    if coins.len() > 0 {
        law_coins_are_paid_exactly(b, coins.drop_last(), denom);
        match spend_coins(b, coins.drop_last()) {
            Ok(rest) => {
                law_minus_takes_exactly(rest, coins.last(), denom);
            },
            Err(_) => {},
        }
    }
}

/// `b` lists `denom` after it paid `coins`: it did so at first, and either
/// something is left of it or none of them was in it.
pub open spec fn still_listed(b: Seq<CoinView>, coins: Seq<CoinView>, denom: Seq<char>) -> bool {
    &&& lists(b, denom)
    &&& coins_total(coins, denom) < held(b, denom) || forall|i: int|
        0 <= i < coins.len() ==> (#[trigger] coins[i]).denom != denom
}

/// `b` holds enough for each of `coins` beside those before it, and lists its
/// denomination when its turn comes. The latter matters only for an amount of
/// nothing.
pub open spec fn payable(b: Seq<CoinView>, coins: Seq<CoinView>) -> bool {
    forall|i: int|
        #![trigger coins[i]]
        0 <= i < coins.len() ==> {
            &&& still_listed(b, coins.take(i), coins[i].denom)
            &&& coins_total(coins.take(i), coins[i].denom) + coins[i].amount <= held(
                b,
                coins[i].denom,
            )
        }
}

/// A balance that lists no denomination twice pays coins one by one if and only if
/// they are payable: it lists their denominations and holds their sums. Then it
/// lists what is left.
pub proof fn law_coins_are_paid_if_payable(
    b: Seq<CoinView>,
    coins: Seq<CoinView>,
    denom: Seq<char>,
)
    requires
        distinct(b),
    ensures
        spend_coins(b, coins) is Ok <==> payable(b, coins),
        spend_coins(b, coins) matches Ok(rest) ==> (lists(rest, denom) <==> still_listed(
            b,
            coins,
            denom,
        )),
    decreases coins.len(),
{
    if coins.len() > 0 {
        let n = coins.len() - 1;
        let earlier = coins.drop_last();
        let last = coins[n];
        law_coins_are_paid_if_payable(b, earlier, denom);
        law_coins_are_paid_if_payable(b, earlier, last.denom);
        assert(coins.take(n) =~= earlier);
        assert forall|i: int| 0 <= i < n implies #[trigger] coins[i] == earlier[i] && coins.take(i)
            == earlier.take(i) by {
            assert(coins.take(i) =~= earlier.take(i));
        }
        assert(payable(b, coins) <==> payable(b, earlier) && still_listed(b, earlier, last.denom)
            && coins_total(earlier, last.denom) + last.amount <= held(b, last.denom)) by {
            if payable(b, coins) {
                assert forall|i: int| #![trigger earlier[i]] 0 <= i < earlier.len() implies {
                    &&& still_listed(b, earlier.take(i), earlier[i].denom)
                    &&& coins_total(earlier.take(i), earlier[i].denom) + earlier[i].amount <= held(
                        b,
                        earlier[i].denom,
                    )
                } by {
                    assert(coins[i] == earlier[i]);
                }
            }
        }
        match spend_coins(b, earlier) {
            Ok(rest) => {
                law_coins_are_paid_exactly(b, earlier, denom);
                law_coins_are_paid_exactly(b, earlier, last.denom);
                law_places_hold_part_of_the_sum(b, denom);
                law_places_hold_part_of_the_sum(b, last.denom);
                law_places_hold_part_of_the_sum(rest, denom);
                law_places_hold_part_of_the_sum(rest, last.denom);
                law_minus_takes_exactly(rest, last, denom);
            },
            Err(_) => {},
        }
        assert(still_listed(b, coins, denom) <==> still_listed(b, earlier, denom) && (denom
            != last.denom || coins_total(coins, denom) < held(b, denom))) by {
            if forall|i: int| 0 <= i < coins.len() ==> (#[trigger] coins[i]).denom != denom {
                assert forall|i: int| 0 <= i < earlier.len() implies (#[trigger] earlier[i]).denom
                    != denom by {
                    assert(coins[i] == earlier[i]);
                }
                assert(coins[n].denom != denom);
            }
        }
    }
}

/// A balance that lists no denomination twice and holds the sum of the coins pays
/// them, if none of them is an amount of nothing.
pub proof fn law_coins_that_are_held_are_paid(b: Seq<CoinView>, coins: Seq<CoinView>)
    requires
        distinct(b),
        all_positive(coins),
        forall|denom: Seq<char>| #[trigger] coins_total(coins, denom) <= held(b, denom),
    ensures
        spend_coins(b, coins) is Ok,
    decreases coins.len(),
{
    if coins.len() > 0 {
        let earlier = coins.drop_last();
        let last = coins.last();
        assert forall|i: int| 0 <= i < earlier.len() implies (#[trigger] earlier[i]).amount > 0 by {
            assert(earlier[i] == coins[i]);
        }
        assert forall|denom: Seq<char>| #[trigger] coins_total(earlier, denom) <= held(
            b,
            denom,
        ) by {
            assert(coins_total(coins, denom) <= held(b, denom));
        }
        law_coins_that_are_held_are_paid(b, earlier);
        law_coins_are_paid_exactly(b, earlier, last.denom);
        let rest = spend_coins(b, earlier)->Ok_0;
        assert(coins_total(coins, last.denom) <= held(b, last.denom));
        assert(coins[coins.len() - 1].amount > 0);
        law_places_hold_part_of_the_sum(b, last.denom);
        law_places_hold_part_of_the_sum(rest, last.denom);
        lemma_place_of(rest, last.denom);
        law_minus_takes_exactly(rest, last, last.denom);
    }
}

/// Messages that an allowance pays for are all transfers, and exactly what they
/// send is taken from it, denomination by denomination. Messages of which it does
/// not pay for all take no more than it held. Its end never changes, a sorted
/// balance stays sorted, and distinct denominations stay distinct.
pub proof fn law_messages_are_paid_exactly<T>(
    a: AllowanceView,
    msgs: Seq<CosmosMsg<T>>,
    denom: Seq<char>,
)
    ensures
        sorted(a.balance) ==> sorted(spend_msgs(a, msgs).0.balance),
        distinct(a.balance) ==> distinct(spend_msgs(a, msgs).0.balance),
        spend_msgs(a, msgs).0.expires == a.expires,
        coins_total(spend_msgs(a, msgs).0.balance, denom) <= coins_total(a.balance, denom),
        spend_msgs(a, msgs).1 is Ok ==> {
            &&& all_transfers(msgs)
            &&& coins_total(spend_msgs(a, msgs).0.balance, denom) + msgs_total(msgs, denom)
                == coins_total(a.balance, denom)
        },
    decreases msgs.len(),
{
    if msgs.len() > 0 {
        law_messages_are_paid_exactly(a, msgs.drop_last(), denom);
        let (left, paid) = spend_msgs(a, msgs.drop_last());
        match sent_coins(msgs.last()) {
            Some(coins) => {
                law_coins_are_paid_exactly(left.balance, coins, denom);
            },
            None => {},
        }
        if spend_msgs(a, msgs).1 is Ok {
            assert forall|i: int| 0 <= i < msgs.len() implies sent_coins(
                #[trigger] msgs[i],
            ) is Some by {
                if i < msgs.len() - 1 {
                    assert(msgs[i] == msgs.drop_last()[i]);
                }
            }
        }
    }
}

/// An allowance that lists no denomination twice pays for transfers whose sum it
/// holds, if none of them sends an amount of nothing.
pub proof fn law_transfers_that_are_held_are_paid<T>(a: AllowanceView, msgs: Seq<CosmosMsg<T>>)
    requires
        distinct(a.balance),
        all_transfers(msgs),
        sends_positive(msgs),
        forall|denom: Seq<char>| #[trigger] msgs_total(msgs, denom) <= held(a.balance, denom),
    ensures
        spend_msgs(a, msgs).1 is Ok,
    decreases msgs.len(),
{
    if msgs.len() > 0 {
        let earlier = msgs.drop_last();
        assert forall|i: int| 0 <= i < earlier.len() implies sent_coins(
            #[trigger] earlier[i],
        ) is Some by {
            assert(earlier[i] == msgs[i]);
        }
        assert forall|i: int| 0 <= i < earlier.len() implies (sent_coins(
            #[trigger] earlier[i],
        ) matches Some(coins) ==> all_positive(coins)) by {
            assert(earlier[i] == msgs[i]);
        }
        assert forall|denom: Seq<char>| #[trigger] msgs_total(earlier, denom) <= held(
            a.balance,
            denom,
        ) by {
            assert(msgs_total(msgs, denom) <= held(a.balance, denom));
        }
        law_transfers_that_are_held_are_paid(a, earlier);
        let left = spend_msgs(a, earlier).0;
        assert(sent_coins(msgs[msgs.len() - 1]) is Some);
        let coins = sent_coins(msgs.last())->Some_0;
        law_messages_are_paid_exactly(a, earlier, Seq::empty());
        assert forall|denom: Seq<char>| #[trigger] coins_total(coins, denom) <= held(
            left.balance,
            denom,
        ) by {
            law_messages_are_paid_exactly(a, earlier, denom);
            law_places_hold_part_of_the_sum(a.balance, denom);
            law_places_hold_part_of_the_sum(left.balance, denom);
            assert(msgs_total(msgs, denom) <= held(a.balance, denom));
        }
        law_coins_that_are_held_are_paid(left.balance, coins);
    }
}

/// Coins that are paid in two lots are paid as in one: the second lot is paid with
/// what the first left, if the first was paid at all.
pub proof fn law_coins_can_be_split(
    b: Seq<CoinView>,
    first: Seq<CoinView>,
    second: Seq<CoinView>,
)
    ensures
        spend_coins(b, first + second) == match spend_coins(b, first) {
            Ok(rest) => spend_coins(rest, second),
            Err(error) => Err(error),
        },
    decreases second.len(),
{
    if second.len() == 0 {
        assert(first + second =~= first);
    } else {
        assert((first + second).drop_last() =~= first + second.drop_last());
        law_coins_can_be_split(b, first, second.drop_last());
    }
}

/// All coins that `msgs` send, in order.
pub open spec fn all_sent<T>(msgs: Seq<CosmosMsg<T>>) -> Seq<CoinView>
    decreases msgs.len(),
{
    if msgs.len() == 0 {
        Seq::empty()
    } else {
        match sent_coins(msgs.last()) {
            Some(coins) => all_sent(msgs.drop_last()) + coins,
            None => all_sent(msgs.drop_last()),
        }
    }
}

/// An allowance pays for messages if and only if they are transfers and its
/// balance pays the coins that they send, one after the other. Then what is left
/// of it is what is left of the balance.
pub proof fn law_messages_are_paid_coin_by_coin<T>(a: AllowanceView, msgs: Seq<CosmosMsg<T>>)
    ensures
        spend_msgs(a, msgs).1 is Ok <==> all_transfers(msgs) && spend_coins(
            a.balance,
            all_sent(msgs),
        ) is Ok,
        spend_msgs(a, msgs).1 is Ok ==> spend_msgs(a, msgs).0 == (AllowanceView {
            balance: spend_coins(a.balance, all_sent(msgs))->Ok_0,
            expires: a.expires,
        }),
    decreases msgs.len(),
{
    if msgs.len() > 0 {
        let earlier = msgs.drop_last();
        let last = msgs[msgs.len() - 1];
        law_messages_are_paid_coin_by_coin(a, earlier);
        assert(all_transfers(msgs) <==> all_transfers(earlier) && sent_coins(last) is Some) by {
            assert forall|i: int| 0 <= i < earlier.len() implies #[trigger] msgs[i]
                == earlier[i] by {}
            if all_transfers(msgs) {
                assert forall|i: int| 0 <= i < earlier.len() implies sent_coins(
                    #[trigger] earlier[i],
                ) is Some by {
                    assert(msgs[i] == earlier[i]);
                }
            }
        }
        match sent_coins(last) {
            Some(coins) => {
                law_coins_can_be_split(a.balance, all_sent(earlier), coins);
            },
            None => {},
        }
    }
}

/// Messages that are paid for in two lots are paid for as in one: the second lot
/// is paid with what the first left, if the first was paid for at all.
pub proof fn law_messages_can_be_split<T>(
    a: AllowanceView,
    first: Seq<CosmosMsg<T>>,
    second: Seq<CosmosMsg<T>>,
)
    ensures
        spend_msgs(a, first + second) == match spend_msgs(a, first).1 {
            Ok(_) => spend_msgs(spend_msgs(a, first).0, second),
            Err(_) => spend_msgs(a, first),
        },
    decreases second.len(),
{
    if second.len() == 0 {
        assert(first + second =~= first);
    } else {
        assert((first + second).drop_last() =~= first + second.drop_last());
        law_messages_can_be_split(a, first, second.drop_last());
    }
}

/// Where an allowance does not pay for all messages, what is left of it is what
/// the messages before the first that it does not pay for left of it.
pub proof fn law_refused_messages_keep_what_was_paid<T>(
    a: AllowanceView,
    msgs: Seq<CosmosMsg<T>>,
) -> (paid: int)
    requires
        spend_msgs(a, msgs).1 is Err,
    ensures
        0 <= paid < msgs.len(),
        spend_msgs(a, msgs.take(paid)) == (spend_msgs(a, msgs).0, Ok::<(), ErrorView>(())),
        spend_msgs(a, msgs.take(paid + 1)) == spend_msgs(a, msgs),
    decreases msgs.len(),
{
    if spend_msgs(a, msgs.drop_last()).1 is Ok {
        let paid = msgs.len() - 1;
        assert(msgs.take(paid) =~= msgs.drop_last());
        assert(msgs.take(paid + 1) =~= msgs);
        paid
    } else {
        let paid = law_refused_messages_keep_what_was_paid(a, msgs.drop_last());
        assert(msgs.drop_last().take(paid) =~= msgs.take(paid));
        assert(msgs.drop_last().take(paid + 1) =~= msgs.take(paid + 1));
        paid
    }
}

} // verus!
