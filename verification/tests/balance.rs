use cosmwasm_std::Uint128;

use cw1_subkeys::coin::{coin, Balance, Coin};
use cw1_subkeys::denom::denom_before;
use cw1_subkeys::error::StdError;

fn balance(coins: &[(u128, &str)]) -> Balance {
    Balance(coins.iter().map(|c| coin(c.0, c.1)).collect())
}

fn plus(b: &Balance, c: Coin) -> Balance {
    let mut sum = b.clone();
    assert!(sum.can_add(&c));
    sum.add_assign(c);
    sum
}

fn underflow(minuend: &str, subtrahend: &str) -> StdError {
    StdError::Underflow {
        minuend: minuend.to_string(),
        subtrahend: subtrahend.to_string(),
    }
}

#[test]
fn coins_hold_what_they_are_made_of() {
    let c = coin(12345, "ETH");
    assert_eq!(c.denom, "ETH".to_string());
    assert_eq!(c.amount, 12345);
    assert_eq!(Balance::new(), Balance(vec![]));
}

#[test]
fn amounts_of_one_denomination_add_up() {
    let b = plus(&balance(&[(555, "BTC"), (12345, "ETH")]), coin(54, "ETH"));
    assert_eq!(b, balance(&[(555, "BTC"), (12399, "ETH")]));
}

#[test]
fn new_denominations_are_put_in_order() {
    let b = balance(&[(555, "BTC"), (12345, "ETH")]);
    assert_eq!(
        plus(&b, coin(2, "ATOM")),
        balance(&[(2, "ATOM"), (555, "BTC"), (12345, "ETH")])
    );
    assert_eq!(
        plus(&b, coin(2, "DOT")),
        balance(&[(555, "BTC"), (2, "DOT"), (12345, "ETH")])
    );
    assert_eq!(
        plus(&b, coin(2, "FIN")),
        balance(&[(555, "BTC"), (12345, "ETH"), (2, "FIN")])
    );
    assert_eq!(plus(&Balance::new(), coin(0, "X")), balance(&[(0, "X")]));
}

#[test]
fn the_order_of_receipts_does_not_matter() {
    let b = balance(&[(5, "m")]);
    let one = plus(&plus(&b, coin(1, "z")), coin(2, "a"));
    let two = plus(&plus(&b, coin(2, "a")), coin(1, "z"));
    assert_eq!(one, two);
    assert_eq!(one, balance(&[(2, "a"), (5, "m"), (1, "z")]));
}

#[test]
fn denominations_compare_as_strings_do() {
    let names = ["", "ETH", "ETHER", "eth", "utoken", "\u{e9}", "\u{20ac}", "\u{1f600}"];
    for a in names {
        for b in names {
            assert_eq!(denom_before(a, b), a < b);
        }
    }
    assert!(denom_before("BTC", "ETH"));
    assert!(!denom_before("ETH", "ETH"));
    assert!(!denom_before("ETHER", "ETH"));
}

#[test]
fn sums_that_do_not_fit_are_noticed() {
    let b = balance(&[(u128::MAX - 5, "ETH")]);
    assert!(b.can_add(&coin(5, "ETH")));
    assert!(!b.can_add(&coin(6, "ETH")));
    assert!(b.can_add(&coin(u128::MAX, "BTC")));
    assert_eq!(plus(&b, coin(5, "ETH")), balance(&[(u128::MAX, "ETH")]));
}

#[test]
fn paying_takes_exactly_the_amount() {
    let b = balance(&[(555, "BTC"), (12345, "ETH")]);
    assert_eq!(
        b.clone().sub(coin(45, "ETH")),
        Ok(balance(&[(555, "BTC"), (12300, "ETH")]))
    );
    // nothing is left of the denomination
    assert_eq!(b.clone().sub(coin(555, "BTC")), Ok(balance(&[(12345, "ETH")])));
    // nothing is taken
    assert_eq!(b.clone().sub(coin(0, "BTC")), Ok(b.clone()));
    // more than there is
    assert_eq!(
        b.clone().sub(coin(556, "BTC")),
        Err(underflow("555", "556"))
    );
    // of what is not there, not even nothing can be paid
    assert_eq!(b.clone().sub(coin(7, "ATOM")), Err(underflow("0", "7")));
    assert_eq!(b.clone().sub(coin(0, "ATOM")), Err(underflow("0", "0")));
}

#[test]
fn giving_up_takes_no_more_than_there_is() {
    let b = balance(&[(555, "BTC"), (12345, "ETH")]);
    assert_eq!(
        b.clone().sub_saturating(coin(45, "ETH")),
        Ok(balance(&[(555, "BTC"), (12300, "ETH")]))
    );
    assert_eq!(
        b.clone().sub_saturating(coin(555, "BTC")),
        Ok(balance(&[(12345, "ETH")]))
    );
    assert_eq!(
        b.clone().sub_saturating(coin(556, "BTC")),
        Ok(balance(&[(12345, "ETH")]))
    );
    assert_eq!(
        b.clone().sub_saturating(coin(7, "ATOM")),
        Err(underflow("0", "7"))
    );
}

#[test]
fn paying_what_was_received_gives_the_balance_back() {
    let b = balance(&[(555, "BTC"), (12345, "ETH")]);
    for c in [coin(3, "ETH"), coin(3, "ATOM"), coin(0, "DOT")] {
        assert_eq!(plus(&b, c.clone()).sub(c.clone()), Ok(b.clone()));
        assert_eq!(plus(&b, c.clone()).sub_saturating(c), Ok(b.clone()));
    }
    // not so where the denomination was listed with nothing
    let b = balance(&[(0, "ETH")]);
    assert_eq!(plus(&b, coin(3, "ETH")).sub(coin(3, "ETH")), Ok(Balance::new()));
}

#[test]
fn empty_balances_hold_nothing() {
    assert!(Balance::new().is_empty());
    assert!(balance(&[(0, "BTC"), (0, "ETH")]).is_empty());
    assert!(!balance(&[(0, "BTC"), (1, "ETH")]).is_empty());
}

#[test]
fn the_first_of_two_equal_denominations_counts() {
    let b = balance(&[(4, "ETH"), (9, "ETH")]);
    assert_eq!(
        b.clone().sub(coin(1, "ETH")),
        Ok(balance(&[(3, "ETH"), (9, "ETH")]))
    );
    assert_eq!(b.clone().sub(coin(5, "ETH")), Err(underflow("4", "5")));
    assert_eq!(
        plus(&b, coin(1, "ETH")),
        balance(&[(5, "ETH"), (9, "ETH")])
    );
}

#[test]
fn underflows_read_as_those_of_plain_amounts() {
    let amounts: [u128; 7] = [0, 1, 9, 10, 1000, 340282366920938463463374607431768211454, u128::MAX];
    for a in amounts {
        for b in amounts {
            let rest = balance(&[(a, "ETH")]).sub(coin(b, "ETH"));
            match Uint128(a) - Uint128(b) {
                Ok(Uint128(0)) => assert_eq!(rest, Ok(Balance::new())),
                Ok(left) => assert_eq!(rest, Ok(balance(&[(left.0, "ETH")]))),
                Err(cosmwasm_std::StdError::Underflow {
                    minuend,
                    subtrahend,
                    ..
                }) => assert_eq!(rest, Err(underflow(&minuend, &subtrahend))),
                Err(e) => panic!("unexpected error: {:?}", e),
            }
        }
    }
    assert_eq!(
        balance(&[(0, "ETH")]).sub(coin(u128::MAX, "ETH")),
        Err(underflow("0", "340282366920938463463374607431768211455"))
    );
}
