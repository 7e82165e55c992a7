//! What holds of balances.
use vstd::prelude::*;

use crate::coin::{
    balance_is_empty, balance_minus, balance_minus_saturating, balance_plus, first_not_before,
    first_place, insert_place, place_of, with_amount, CoinView,
};
use crate::denom::{denom_lt, law_denominations_are_totally_ordered};
use crate::error::{underflow_view, ErrorView};

verus! {

/// The denominations of `b` come in strictly ascending order, so none occurs
/// twice.
pub open spec fn sorted(b: Seq<CoinView>) -> bool {
    forall|i: int, j: int|
        0 <= i < j < b.len() ==> denom_lt((#[trigger] b[i]).denom, (#[trigger] b[j]).denom)
}

/// No denomination occurs twice in `b`.
pub open spec fn distinct(b: Seq<CoinView>) -> bool {
    forall|i: int, j: int|
        0 <= i < j < b.len() ==> (#[trigger] b[i]).denom != (#[trigger] b[j]).denom
}

/// `b` lists `denom`, be it with an amount of nothing.
pub open spec fn lists(b: Seq<CoinView>, denom: Seq<char>) -> bool {
    exists|i: int| 0 <= i < b.len() && (#[trigger] b[i]).denom == denom
}

/// How much `b` holds of `denom` in the first place that lists it.
pub open spec fn held(b: Seq<CoinView>, denom: Seq<char>) -> nat {
    match place_of(b, denom) {
        Some(i) => b[i].amount,
        None => 0,
    }
}

/// The amount of `c`, counted only where it is in `denom`.
pub open spec fn amount_in(c: CoinView, denom: Seq<char>) -> nat {
    if c.denom == denom {
        c.amount
    } else {
        0
    }
}

/// The sum of `coins` in `denom`, over all places that list it.
pub open spec fn coins_total(coins: Seq<CoinView>, denom: Seq<char>) -> nat
    decreases coins.len(),
{
    if coins.len() == 0 {
        0
    } else {
        coins_total(coins.drop_last(), denom) + amount_in(coins.last(), denom)
    }
}

/// The place of a denomination is its first one, and it has one if and only if it
/// is listed.
pub(crate) proof fn lemma_place_of(b: Seq<CoinView>, denom: Seq<char>)
    ensures
        match place_of(b, denom) {
            Some(i) => first_place(b, denom, i),
            None => forall|j: int| 0 <= j < b.len() ==> (#[trigger] b[j]).denom != denom,
        },
        lists(b, denom) <==> place_of(b, denom) is Some,
{
    lemma_first_place_exists(b, denom, b.len() as int);
}

proof fn lemma_first_place_exists(b: Seq<CoinView>, denom: Seq<char>, n: int)
    requires
        0 <= n <= b.len(),
    ensures
        (exists|i: int| first_place(b, denom, i)) || forall|j: int|
            0 <= j < n ==> (#[trigger] b[j]).denom != denom,
    decreases n,
{
    if n > 0 {
        lemma_first_place_exists(b, denom, n - 1);
        if !(exists|i: int| first_place(b, denom, i)) && b[n - 1].denom == denom {
            assert(first_place(b, denom, n - 1));
        }
    }
}

/// A first place is the place.
proof fn lemma_is_place_of(b: Seq<CoinView>, denom: Seq<char>, i: int)
    requires
        first_place(b, denom, i),
    ensures
        place_of(b, denom) == Some(i),
{
    lemma_place_of(b, denom);
}

/// There is a place to put a new denomination in.
pub(crate) proof fn lemma_insert_place(b: Seq<CoinView>, denom: Seq<char>)
    ensures
        first_not_before(b, denom, insert_place(b, denom)),
{
    lemma_insert_place_exists(b, denom, 0);
}

proof fn lemma_insert_place_exists(b: Seq<CoinView>, denom: Seq<char>, n: int)
    requires
        0 <= n <= b.len(),
        forall|j: int| 0 <= j < n ==> denom_lt((#[trigger] b[j]).denom, denom),
    ensures
        exists|i: int| first_not_before(b, denom, i),
    decreases b.len() - n,
{
    if n < b.len() && denom_lt(b[n].denom, denom) {
        lemma_insert_place_exists(b, denom, n + 1);
    } else {
        assert(first_not_before(b, denom, n));
    }
}

/// There is only one place to put a new denomination in.
proof fn lemma_is_insert_place(b: Seq<CoinView>, denom: Seq<char>, i: int)
    requires
        first_not_before(b, denom, i),
    ensures
        insert_place(b, denom) == i,
{
    lemma_insert_place(b, denom);
}

/// In a balance without repetitions, any place that lists a denomination is its
/// place.
proof fn lemma_distinct_place(b: Seq<CoinView>, i: int)
    requires
        distinct(b),
        0 <= i < b.len(),
    ensures
        place_of(b, b[i].denom) == Some(i),
{
    lemma_is_place_of(b, b[i].denom, i);
}

/// A sorted balance lists no denomination twice.
pub proof fn law_sorted_balances_are_distinct(b: Seq<CoinView>)
    requires
        sorted(b),
    ensures
        distinct(b),
{
    assert forall|i: int, j: int| 0 <= i < j < b.len() implies (#[trigger] b[i]).denom != (
    #[trigger] b[j]).denom by {
        law_denominations_are_totally_ordered(b[i].denom, b[i].denom, b[i].denom);
    }
}

/// Taking a place out takes its amount from the sum.
proof fn lemma_total_remove(b: Seq<CoinView>, i: int, denom: Seq<char>)
    requires
        0 <= i < b.len(),
    ensures
        coins_total(b.remove(i), denom) + amount_in(b[i], denom) == coins_total(b, denom),
    decreases b.len(),
{
    if i == b.len() - 1 {
        assert(b.remove(i) =~= b.drop_last());
    } else {
        assert(b.remove(i).drop_last() =~= b.drop_last().remove(i));
        assert(b.remove(i).last() == b.last());
        lemma_total_remove(b.drop_last(), i, denom);
    }
}

/// Putting a coin in adds its amount to the sum.
proof fn lemma_total_insert(b: Seq<CoinView>, i: int, c: CoinView, denom: Seq<char>)
    requires
        0 <= i <= b.len(),
    ensures
        coins_total(b.insert(i, c), denom) == coins_total(b, denom) + amount_in(c, denom),
{
    lemma_total_remove(b.insert(i, c), i, denom);
    assert(b.insert(i, c).remove(i) =~= b);
}

/// Replacing the amount at a place replaces it in the sum.
proof fn lemma_total_with_amount(b: Seq<CoinView>, i: int, amount: nat, denom: Seq<char>)
    requires
        0 <= i < b.len(),
    ensures
        coins_total(with_amount(b, i, amount), denom) + amount_in(b[i], denom) == coins_total(
            b,
            denom,
        ) + amount_in(CoinView { denom: b[i].denom, amount }, denom),
{
    lemma_total_remove(b, i, denom);
    lemma_total_remove(with_amount(b, i, amount), i, denom);
    assert(with_amount(b, i, amount).remove(i) =~= b.remove(i));
}

/// There is nothing of a denomination that is not listed.
proof fn lemma_total_unlisted(b: Seq<CoinView>, denom: Seq<char>)
    requires
        !lists(b, denom),
    ensures
        coins_total(b, denom) == 0,
    decreases b.len(),
{
    if b.len() > 0 {
        let earlier = b.drop_last();
        assert(b[b.len() - 1].denom != denom);
        assert forall|i: int| 0 <= i < earlier.len() implies (#[trigger] earlier[i]).denom
            != denom by {
            assert(earlier[i] == b[i]);
        }
        lemma_total_unlisted(earlier, denom);
    }
}

/// What the first place holds of a denomination is no more than the sum over all
/// places, and just that sum where no denomination is listed twice.
pub proof fn law_places_hold_part_of_the_sum(b: Seq<CoinView>, denom: Seq<char>)
    ensures
        held(b, denom) <= coins_total(b, denom),
        distinct(b) ==> held(b, denom) == coins_total(b, denom),
{
    lemma_place_of(b, denom);
    match place_of(b, denom) {
        Some(i) => {
            lemma_total_remove(b, i, denom);
            if distinct(b) {
                let rest = b.remove(i);
                assert forall|j: int| 0 <= j < rest.len() implies (#[trigger] rest[j]).denom
                    != denom by {
                    assert(rest[j] == if j < i { b[j] } else { b[j + 1] });
                }
                lemma_total_unlisted(rest, denom);
            }
        },
        None => {
            lemma_total_unlisted(b, denom);
        },
    }
}

/// Receiving coins adds their amount to what is held of their denomination, and to
/// its sum over all places, and changes no other.
pub proof fn law_plus_adds(b: Seq<CoinView>, c: CoinView, denom: Seq<char>)
    ensures
        held(balance_plus(b, c), denom) == held(b, denom) + amount_in(c, denom),
        coins_total(balance_plus(b, c), denom) == coins_total(b, denom) + amount_in(c, denom),
        lists(balance_plus(b, c), denom) <==> lists(b, denom) || denom == c.denom,
{
    let after = balance_plus(b, c);
    lemma_place_of(b, c.denom);
    lemma_place_of(b, denom);
    lemma_place_of(after, denom);
    match place_of(b, c.denom) {
        Some(i) => {
            lemma_total_with_amount(b, i, b[i].amount + c.amount, denom);
            assert forall|j: int| 0 <= j < b.len() implies (#[trigger] after[j]).denom
                == b[j].denom by {}
            match place_of(b, denom) {
                Some(k) => {
                    assert(first_place(after, denom, k));
                    lemma_is_place_of(after, denom, k);
                },
                None => {},
            }
        },
        None => {
            let p = insert_place(b, c.denom);
            lemma_insert_place(b, c.denom);
            lemma_total_insert(b, p, c, denom);
            if denom == c.denom {
                assert(after[p] == c);
                assert(first_place(after, denom, p));
                lemma_is_place_of(after, denom, p);
            } else {
                match place_of(b, denom) {
                    Some(k) => {
                        let q = if k < p { k } else { k + 1 };
                        assert(after[q] == b[k]);
                        assert(first_place(after, denom, q));
                        lemma_is_place_of(after, denom, q);
                    },
                    None => {
                        assert forall|j: int| 0 <= j < after.len() implies (#[trigger]
                        after[j]).denom != denom by {
                            if j < p {
                                assert(after[j] == b[j]);
                            } else if j > p {
                                assert(after[j] == b[j - 1]);
                            }
                        }
                    },
                }
            }
        },
    }
}

/// Receiving coins keeps a balance sorted.
pub proof fn law_plus_keeps_sorted(b: Seq<CoinView>, c: CoinView)
    requires
        sorted(b),
    ensures
        sorted(balance_plus(b, c)),
{
    let after = balance_plus(b, c);
    lemma_place_of(b, c.denom);
    match place_of(b, c.denom) {
        Some(i) => {
            assert forall|j: int| 0 <= j < b.len() implies (#[trigger] after[j]).denom
                == b[j].denom by {}
        },
        None => {
            let p = insert_place(b, c.denom);
            lemma_insert_place(b, c.denom);
            assert forall|i: int, j: int| 0 <= i < j < after.len() implies denom_lt(
                (#[trigger] after[i]).denom,
                (#[trigger] after[j]).denom,
            ) by {
                if i < p && j == p {
                    assert(after[i] == b[i]);
                } else if i == p {
                    assert(after[j] == b[j - 1]);
                    law_denominations_are_totally_ordered(b[p].denom, c.denom, c.denom);
                    if p < j - 1 {
                        law_denominations_are_totally_ordered(c.denom, b[p].denom, b[j - 1].denom);
                    }
                } else {
                    assert(after[i] == if i < p { b[i] } else { b[i - 1] });
                    assert(after[j] == if j < p { b[j] } else { b[j - 1] });
                }
            }
        },
    }
}

/// Taking out the place of a denomination, or replacing the amount there, keeps a
/// balance sorted and its denominations distinct, and changes only what is held of
/// that denomination.
proof fn lemma_change_at(b: Seq<CoinView>, i: int, amount: nat, denom: Seq<char>)
    requires
        first_place(b, b[i].denom, i),
    ensures
        sorted(b) ==> sorted(b.remove(i)) && sorted(with_amount(b, i, amount)),
        distinct(b) ==> distinct(b.remove(i)) && distinct(with_amount(b, i, amount)),
        denom != b[i].denom ==> {
            &&& held(b.remove(i), denom) == held(b, denom)
            &&& lists(b.remove(i), denom) <==> lists(b, denom)
        },
        distinct(b) ==> held(b.remove(i), b[i].denom) == 0 && !lists(b.remove(i), b[i].denom),
        held(with_amount(b, i, amount), denom) == if denom == b[i].denom {
            amount
        } else {
            held(b, denom)
        },
        lists(with_amount(b, i, amount), denom) <==> lists(b, denom),
{
    let removed = b.remove(i);
    let changed = with_amount(b, i, amount);
    assert forall|x: int| 0 <= x < removed.len() implies #[trigger] removed[x] == if x < i {
        b[x]
    } else {
        b[x + 1]
    } by {}
    assert forall|x: int| 0 <= x < b.len() implies (#[trigger] changed[x]).denom == b[x].denom by {}
    lemma_place_of(b, denom);
    lemma_place_of(removed, denom);
    lemma_place_of(removed, b[i].denom);
    lemma_place_of(changed, denom);
    lemma_is_place_of(b, b[i].denom, i);
    match place_of(b, denom) {
        Some(k) => {
            assert(first_place(changed, denom, k));
            lemma_is_place_of(changed, denom, k);
            if k < i {
                assert(removed[k] == b[k]);
                assert(first_place(removed, denom, k));
                lemma_is_place_of(removed, denom, k);
            } else if k > i {
                assert(removed[k - 1] == b[k]);
                assert(first_place(removed, denom, k - 1));
                lemma_is_place_of(removed, denom, k - 1);
            }
        },
        None => {},
    }
    if distinct(b) {
        assert forall|x: int| 0 <= x < removed.len() implies (#[trigger] removed[x]).denom
            != b[i].denom by {
            assert(removed[x] == if x < i { b[x] } else { b[x + 1] });
        }
    }
}

/// A balance pays coins if and only if it lists their denomination and holds their
/// amount of it in the first place. Then exactly that amount is gone from the sum
/// of the denomination, no other changes, and a sorted balance stays sorted. Where
/// no denomination is listed twice, that is still so, and one of which nothing is
/// left is not listed any more.
pub proof fn law_minus_takes_exactly(b: Seq<CoinView>, c: CoinView, denom: Seq<char>)
    ensures
        balance_minus(b, c) is Ok <==> lists(b, c.denom) && held(b, c.denom) >= c.amount,
        balance_minus(b, c) matches Ok(rest) ==> {
            &&& coins_total(rest, denom) + amount_in(c, denom) == coins_total(b, denom)
            &&& sorted(b) ==> sorted(rest)
            &&& distinct(b) ==> {
                &&& distinct(rest)
                &&& held(rest, denom) + amount_in(c, denom) == held(b, denom)
                &&& lists(rest, denom) <==> lists(b, denom) && (denom != c.denom || held(b, denom)
                    > c.amount)
            }
        },
        balance_minus(b, c) matches Err(error) ==> error == underflow_view(
            held(b, c.denom),
            c.amount,
        ),
{
    lemma_place_of(b, c.denom);
    match place_of(b, c.denom) {
        Some(i) => {
            if b[i].amount >= c.amount {
                let left = (b[i].amount - c.amount) as nat;
                lemma_change_at(b, i, left, denom);
                lemma_total_remove(b, i, denom);
                lemma_total_with_amount(b, i, left, denom);
            }
        },
        None => {},
    }
}

/// The smaller of what the first place of `c`'s denomination holds and `c`'s amount.
pub open spec fn at_most_held(b: Seq<CoinView>, c: CoinView) -> CoinView {
    CoinView {
        denom: c.denom,
        amount: if held(b, c.denom) < c.amount {
            held(b, c.denom)
        } else {
            c.amount
        },
    }
}

/// A balance gives up coins if and only if it lists their denomination. Then their
/// amount, or all that the first place holds where that is less, is gone from the
/// sum of the denomination; no other changes, and a sorted balance stays sorted.
/// Where no denomination is listed twice, that is still so, and one of which
/// nothing is left is not listed any more.
pub proof fn law_minus_saturating_takes_at_most(b: Seq<CoinView>, c: CoinView, denom: Seq<char>)
    ensures
        balance_minus_saturating(b, c) is Ok <==> lists(b, c.denom),
        balance_minus_saturating(b, c) matches Ok(rest) ==> {
            &&& coins_total(rest, denom) + amount_in(at_most_held(b, c), denom) == coins_total(
                b,
                denom,
            )
            &&& denom != c.denom ==> held(rest, denom) == held(b, denom)
            &&& sorted(b) ==> sorted(rest)
            &&& distinct(b) ==> {
                &&& distinct(rest)
                &&& held(rest, denom) + amount_in(at_most_held(b, c), denom) == held(b, denom)
                &&& lists(rest, denom) <==> lists(b, denom) && (denom != c.denom || held(b, denom)
                    > c.amount)
            }
        },
        balance_minus_saturating(b, c) matches Err(error) ==> error == underflow_view(0, c.amount),
{
    lemma_place_of(b, c.denom);
    match place_of(b, c.denom) {
        Some(i) => {
            let left = (b[i].amount - c.amount) as nat;
            lemma_change_at(b, i, left, denom);
            lemma_total_remove(b, i, denom);
            lemma_total_with_amount(b, i, left, denom);
        },
        None => {},
    }
}

/// Paying what was just received gives the balance back, unless it listed the
/// denomination with an amount of nothing.
pub proof fn law_minus_undoes_plus(b: Seq<CoinView>, c: CoinView)
    requires
        lists(b, c.denom) ==> held(b, c.denom) > 0,
    ensures
        balance_minus(balance_plus(b, c), c) == Ok::<_, ErrorView>(b),
        balance_minus_saturating(balance_plus(b, c), c) == Ok::<_, ErrorView>(b),
{
    let after = balance_plus(b, c);
    lemma_place_of(b, c.denom);
    match place_of(b, c.denom) {
        Some(i) => {
            assert(first_place(after, c.denom, i));
            lemma_is_place_of(after, c.denom, i);
            assert(with_amount(after, i, b[i].amount) =~= b);
        },
        None => {
            let p = insert_place(b, c.denom);
            lemma_insert_place(b, c.denom);
            assert(first_place(after, c.denom, p));
            lemma_is_place_of(after, c.denom, p);
            assert(after.remove(p) =~= b);
        },
    }
}

/// A balance is empty if and only if its sum of every denomination is nothing.
pub proof fn law_empty_holds_nothing(b: Seq<CoinView>)
    ensures
        balance_is_empty(b) <==> forall|denom: Seq<char>| #[trigger] coins_total(b, denom) == 0,
{
    if balance_is_empty(b) {
        assert forall|denom: Seq<char>| #[trigger] coins_total(b, denom) == 0 by {
            lemma_empty_total(b, denom);
        }
    }
    if forall|denom: Seq<char>| #[trigger] coins_total(b, denom) == 0 {
        assert forall|i: int| 0 <= i < b.len() implies (#[trigger] b[i]).amount == 0 by {
            lemma_total_remove(b, i, b[i].denom);
            assert(coins_total(b, b[i].denom) == 0);
        }
    }
}

proof fn lemma_empty_total(b: Seq<CoinView>, denom: Seq<char>)
    requires
        balance_is_empty(b),
    ensures
        coins_total(b, denom) == 0,
    decreases b.len(),
{
    if b.len() > 0 {
        let earlier = b.drop_last();
        assert(b[b.len() - 1].amount == 0);
        assert forall|i: int| 0 <= i < earlier.len() implies (#[trigger] earlier[i]).amount
            == 0 by {
            assert(earlier[i] == b[i]);
        }
        lemma_empty_total(earlier, denom);
    }
}

/// Two sorted balances that list the same denominations and hold the same of
/// each are the same.
pub proof fn law_sorted_balances_are_determined(a: Seq<CoinView>, b: Seq<CoinView>)
    requires
        sorted(a),
        sorted(b),
        forall|denom: Seq<char>| #[trigger] lists(a, denom) == lists(b, denom),
        forall|denom: Seq<char>| #[trigger] held(a, denom) == held(b, denom),
    ensures
        a == b,
    decreases a.len(),
{
    if a.len() == 0 {
        if b.len() > 0 {
            assert(lists(b, b[0].denom));
            assert(lists(a, b[0].denom));
        }
        assert(a =~= b);
    } else {
        assert(lists(a, a[0].denom));
        assert(lists(b, a[0].denom));
        assert(lists(b, b[0].denom));
        assert(lists(a, b[0].denom));
        lemma_first_denoms_agree(a, b);
        law_sorted_balances_are_distinct(a);
        law_sorted_balances_are_distinct(b);
        lemma_distinct_place(a, 0);
        lemma_distinct_place(b, 0);
        assert(held(a, a[0].denom) == held(b, b[0].denom));
        assert(a[0] =~= b[0]);
        let x = a.remove(0);
        let y = b.remove(0);
        assert forall|denom: Seq<char>| #[trigger] lists(x, denom) == lists(y, denom) by {
            lemma_change_at(a, 0, 0, denom);
            lemma_change_at(b, 0, 0, denom);
            assert(lists(a, denom) == lists(b, denom));
        }
        assert forall|denom: Seq<char>| #[trigger] held(x, denom) == held(y, denom) by {
            lemma_change_at(a, 0, 0, denom);
            lemma_change_at(b, 0, 0, denom);
            assert(held(a, denom) == held(b, denom));
        }
        lemma_change_at(a, 0, 0, a[0].denom);
        lemma_change_at(b, 0, 0, b[0].denom);
        law_sorted_balances_are_determined(x, y);
        assert(a =~= seq![a[0]] + x);
        assert(b =~= seq![b[0]] + y);
    }
}

proof fn lemma_first_denoms_agree(a: Seq<CoinView>, b: Seq<CoinView>)
    requires
        sorted(a),
        sorted(b),
        a.len() > 0,
        b.len() > 0,
        lists(a, b[0].denom),
        lists(b, a[0].denom),
    ensures
        a[0].denom == b[0].denom,
{
    let i = choose|i: int| 0 <= i < a.len() && (#[trigger] a[i]).denom == b[0].denom;
    let j = choose|j: int| 0 <= j < b.len() && (#[trigger] b[j]).denom == a[0].denom;
    if a[0].denom != b[0].denom {
        assert(denom_lt(a[0].denom, a[i].denom));
        assert(denom_lt(b[0].denom, b[j].denom));
        law_denominations_are_totally_ordered(a[0].denom, b[0].denom, a[0].denom);
    }
}

/// Receiving a coin moves the place of another denomination, and the place to put
/// one in, by one where the coin is put in before it.
proof fn lemma_places_after_plus(b: Seq<CoinView>, c: CoinView, denom: Seq<char>)
    ensures
        place_of(b, c.denom) is Some ==> {
            &&& place_of(balance_plus(b, c), denom) == place_of(b, denom)
            &&& insert_place(balance_plus(b, c), denom) == insert_place(b, denom)
        },
        place_of(b, c.denom) is None ==> ({
            let p = insert_place(b, c.denom);
            let q = insert_place(b, denom);
            &&& denom == c.denom ==> place_of(balance_plus(b, c), denom) == Some(p)
            &&& denom != c.denom ==> {
                &&& place_of(balance_plus(b, c), denom) == match place_of(b, denom) {
                    Some(k) => Some(if k < p { k } else { k + 1 }),
                    None => None,
                }
                &&& insert_place(balance_plus(b, c), denom) == if denom_lt(c.denom, denom) {
                    q + 1
                } else {
                    q
                }
                &&& denom_lt(c.denom, denom) ==> p <= q
                &&& denom_lt(denom, c.denom) ==> q <= p
            }
        }),
{
    let after = balance_plus(b, c);
    let q = insert_place(b, denom);
    lemma_place_of(b, c.denom);
    lemma_place_of(b, denom);
    lemma_place_of(after, denom);
    lemma_insert_place(b, denom);
    match place_of(b, c.denom) {
        Some(i) => {
            assert forall|j: int| 0 <= j < b.len() implies (#[trigger] after[j]).denom
                == b[j].denom by {}
            match place_of(b, denom) {
                Some(k) => {
                    assert(first_place(after, denom, k));
                    lemma_is_place_of(after, denom, k);
                },
                None => {},
            }
            assert(first_not_before(after, denom, q));
            lemma_is_insert_place(after, denom, q);
        },
        None => {
            let p = insert_place(b, c.denom);
            lemma_insert_place(b, c.denom);
            assert forall|j: int| 0 <= j < after.len() implies #[trigger] after[j] == if j < p {
                b[j]
            } else if j == p {
                c
            } else {
                b[j - 1]
            } by {}
            if denom == c.denom {
                assert(first_place(after, denom, p));
                lemma_is_place_of(after, denom, p);
            } else {
                match place_of(b, denom) {
                    Some(k) => {
                        let moved = if k < p { k } else { k + 1 };
                        assert(after[moved] == b[k]);
                        assert(first_place(after, denom, moved));
                        lemma_is_place_of(after, denom, moved);
                    },
                    None => {
                        assert forall|j: int| 0 <= j < after.len() implies (#[trigger]
                        after[j]).denom != denom by {
                            assert(after[j] == if j < p { b[j] } else if j == p { c } else {
                                b[j - 1]
                            });
                        }
                    },
                }
                law_denominations_are_totally_ordered(c.denom, denom, c.denom);
                law_denominations_are_totally_ordered(denom, c.denom, denom);
                if denom_lt(c.denom, denom) {
                    if q < p {
                        law_denominations_are_totally_ordered(b[q].denom, c.denom, denom);
                    }
                    assert(first_not_before(after, denom, q + 1)) by {
                        assert forall|j: int| 0 <= j < q + 1 implies denom_lt(
                            (#[trigger] after[j]).denom,
                            denom,
                        ) by {
                            assert(after[j] == if j < p { b[j] } else if j == p { c } else {
                                b[j - 1]
                            });
                        }
                        if q < b.len() {
                            assert(after[q + 1] == b[q]);
                        }
                    }
                    lemma_is_insert_place(after, denom, q + 1);
                } else {
                    if p < q {
                        law_denominations_are_totally_ordered(b[p].denom, denom, c.denom);
                    }
                    assert(first_not_before(after, denom, q)) by {
                        assert forall|j: int| 0 <= j < q implies denom_lt(
                            (#[trigger] after[j]).denom,
                            denom,
                        ) by {
                            assert(after[j] == b[j]);
                        }
                        if q < p {
                            assert(after[q] == b[q]);
                        } else {
                            assert(after[q] == c);
                        }
                    }
                    lemma_is_insert_place(after, denom, q);
                }
            }
        },
    }
}

/// Two receipts of coins lead to the same balance in either order.
pub proof fn law_plus_commutes(b: Seq<CoinView>, c: CoinView, d: CoinView)
    ensures
        balance_plus(balance_plus(b, c), d) == balance_plus(balance_plus(b, d), c),
{
    let x = balance_plus(balance_plus(b, c), d);
    let y = balance_plus(balance_plus(b, d), c);
    lemma_place_of(b, c.denom);
    lemma_place_of(b, d.denom);
    lemma_insert_place(b, c.denom);
    lemma_insert_place(b, d.denom);
    lemma_places_after_plus(b, c, d.denom);
    lemma_places_after_plus(b, d, c.denom);
    law_denominations_are_totally_ordered(c.denom, d.denom, c.denom);
    assert(x =~= y);
}

} // verus!
