//! Coins and balances of coins.
use vstd::prelude::*;

use crate::denom::{denom_before, denom_lt};
use crate::error::{result_view, underflow_view, ErrorView, StdError, StdResult};

verus! {

/// An amount of one denomination.
#[derive(Debug, PartialEq)]
pub struct Coin {
    pub denom: String,
    pub amount: u128,
}

/// What a [`Coin`] is worth.
#[verifier::ext_equal]
pub struct CoinView {
    pub denom: Seq<char>,
    pub amount: nat,
}

impl View for Coin {
    type V = CoinView;

    open spec fn view(&self) -> CoinView {
        CoinView { denom: self.denom@, amount: self.amount as nat }
    }
}

impl Clone for Coin {
    fn clone(&self) -> (copy: Coin)
        ensures
            copy == *self,
    {
        Coin { denom: self.denom.clone(), amount: self.amount }
    }
}

/// `amount` of the denomination `denom`.
pub fn coin(amount: u128, denom: &str) -> (c: Coin)
    ensures
        c@ == (CoinView { denom: denom@, amount: amount as nat }),
{
    Coin { denom: denom.to_string(), amount }
}

/// The views of some coins, in order.
pub open spec fn coins_view(coins: Seq<Coin>) -> Seq<CoinView> {
    coins.map_values(|c: Coin| c@)
}

/// The coins that someone holds.
#[derive(Debug, PartialEq)]
pub struct Balance(pub Vec<Coin>);

impl View for Balance {
    type V = Seq<CoinView>;

    open spec fn view(&self) -> Seq<CoinView> {
        coins_view(self.0@)
    }
}

/// `i` is the first place in `b` that holds `denom`.
pub open spec fn first_place(b: Seq<CoinView>, denom: Seq<char>, i: int) -> bool {
    &&& 0 <= i < b.len()
    &&& b[i].denom == denom
    &&& forall|j: int| 0 <= j < i ==> (#[trigger] b[j]).denom != denom
}

/// The first place in `b` that holds `denom`, if one does.
pub open spec fn place_of(b: Seq<CoinView>, denom: Seq<char>) -> Option<int> {
    if exists|i: int| first_place(b, denom, i) {
        Some(choose|i: int| first_place(b, denom, i))
    } else {
        None
    }
}

/// `i` is the first place in `b` whose denomination does not come before
/// `denom`, or the end where there is none.
pub open spec fn first_not_before(b: Seq<CoinView>, denom: Seq<char>, i: int) -> bool {
    &&& 0 <= i <= b.len()
    &&& i < b.len() ==> !denom_lt(b[i].denom, denom)
    &&& forall|j: int| 0 <= j < i ==> denom_lt((#[trigger] b[j]).denom, denom)
}

/// Where a coin of a denomination that `b` does not hold is put in.
pub open spec fn insert_place(b: Seq<CoinView>, denom: Seq<char>) -> int {
    choose|i: int| first_not_before(b, denom, i)
}

/// `b` with the amount at place `i` replaced.
pub open spec fn with_amount(b: Seq<CoinView>, i: int, amount: nat) -> Seq<CoinView> {
    b.update(i, CoinView { denom: b[i].denom, amount })
}

/// `b` after receiving `c`: the amounts of one denomination are added up, and a
/// new denomination is put in before the first one that does not come before it.
pub open spec fn balance_plus(b: Seq<CoinView>, c: CoinView) -> Seq<CoinView> {
    match place_of(b, c.denom) {
        Some(i) => with_amount(b, i, b[i].amount + c.amount),
        None => b.insert(insert_place(b, c.denom), c),
    }
}

/// The sum that `b` plus `c` asks for can be written in 128 bits.
pub open spec fn balance_plus_fits(b: Seq<CoinView>, c: CoinView) -> bool {
    place_of(b, c.denom) matches Some(i) ==> b[i].amount + c.amount <= u128::MAX
}

/// `b` after paying `c`, where it holds that much; a denomination of which
/// nothing is left leaves `b`.
pub open spec fn balance_minus(b: Seq<CoinView>, c: CoinView) -> Result<
    Seq<CoinView>,
    ErrorView,
> {
    match place_of(b, c.denom) {
        Some(i) => if b[i].amount < c.amount {
            Err(underflow_view(b[i].amount, c.amount))
        } else if b[i].amount == c.amount {
            Ok(b.remove(i))
        } else {
            Ok(with_amount(b, i, (b[i].amount - c.amount) as nat))
        },
        None => Err(underflow_view(0, c.amount)),
    }
}

/// `b` after giving up `c`, or all that it holds of the denomination where that
/// is less; nothing can be given up of a denomination that `b` does not hold.
pub open spec fn balance_minus_saturating(b: Seq<CoinView>, c: CoinView) -> Result<
    Seq<CoinView>,
    ErrorView,
> {
    match place_of(b, c.denom) {
        Some(i) => if b[i].amount <= c.amount {
            Ok(b.remove(i))
        } else {
            Ok(with_amount(b, i, (b[i].amount - c.amount) as nat))
        },
        None => Err(underflow_view(0, c.amount)),
    }
}

/// `b` holds nothing of any denomination.
pub open spec fn balance_is_empty(b: Seq<CoinView>) -> bool {
    forall|i: int| 0 <= i < b.len() ==> (#[trigger] b[i]).amount == 0
}

impl Balance {
    /// A balance without coins.
    pub fn new() -> (balance: Balance)
        ensures
            balance@ == Seq::<CoinView>::empty(),
    {
        let balance = Balance(Vec::new());
        assert(balance@ =~= Seq::<CoinView>::empty());
        balance
    }

    fn find(&self, denom: &String) -> (place: Option<usize>)
        ensures
            match place {
                Some(i) => first_place(self@, denom@, i as int) && place_of(self@, denom@) == Some(
                    i as int,
                ),
                None => place_of(self@, denom@) is None,
            },
    {
        let mut i: usize = 0;
        while i < self.0.len()
            invariant
                i <= self.0@.len(),
                forall|j: int| 0 <= j < i ==> (#[trigger] self@[j]).denom != denom@,
            decreases self.0@.len() - i,
        {
            assert(self@[i as int] == self.0@[i as int]@);
            if self.0[i].denom == *denom {
                assert(first_place(self@, denom@, i as int));
                return Some(i);
            }
            i += 1;
        }
        None
    }

    fn insert_pos(&self, denom: &String) -> (place: usize)
        ensures
            place <= self.0@.len(),
            place == insert_place(self@, denom@),
    {
        let mut i: usize = 0;
        while i < self.0.len()
            invariant
                i <= self.0@.len(),
                forall|j: int| 0 <= j < i ==> denom_lt((#[trigger] self@[j]).denom, denom@),
            decreases self.0@.len() - i,
        {
            assert(self@[i as int] == self.0@[i as int]@);
            if !denom_before(self.0[i].denom.as_str(), denom.as_str()) {
                assert(first_not_before(self@, denom@, i as int));
                return i;
            }
            i += 1;
        }
        assert(first_not_before(self@, denom@, i as int));
        i
    }

    /// Whether the sum that adding `other` asks for can be written in 128 bits.
    pub fn can_add(&self, other: &Coin) -> (fits: bool)
        ensures
            fits == balance_plus_fits(self@, other@),
    {
        match self.find(&other.denom) {
            Some(i) => {
                assert(self@[i as int] == self.0@[i as int]@);
                self.0[i].amount <= u128::MAX - other.amount
            },
            None => true,
        }
    }

    /// Receives `other`.
    pub fn add_assign(&mut self, other: Coin)
        requires
            balance_plus_fits(old(self)@, other@),
        ensures
            final(self)@ == balance_plus(old(self)@, other@),
    {
        let ghost before = self@;
        match self.find(&other.denom) {
            Some(i) => {
                assert(self@[i as int] == self.0@[i as int]@);
                let denom = self.0[i].denom.clone();
                let amount: u128 = self.0[i].amount + other.amount;
                self.0[i] = Coin { denom, amount };
                assert(self@ =~= balance_plus(before, other@));
            },
            None => {
                let i: usize = self.insert_pos(&other.denom);
                self.0.insert(i, other);
                assert(self@ =~= balance_plus(before, other@));
            },
        }
    }

    /// Pays `other`, or fails if the balance holds less than that.
    pub fn sub(self, other: Coin) -> (rest: StdResult<Balance>)
        ensures
            result_view(rest) == balance_minus(self@, other@),
    {
        match self.find(&other.denom) {
            Some(i) => {
                assert(self@[i as int] == self.0@[i as int]@);
                let held: u128 = self.0[i].amount;
                if held < other.amount {
                    Err(StdError::underflow(held, other.amount))
                } else {
                    Ok(self.with_rest(i, held - other.amount))
                }
            },
            None => Err(StdError::underflow(0, other.amount)),
        }
    }

    /// Gives up `other`, or all of the denomination where that is less; fails if
    /// the balance does not hold the denomination.
    pub fn sub_saturating(self, other: Coin) -> (rest: StdResult<Balance>)
        ensures
            result_view(rest) == balance_minus_saturating(self@, other@),
    {
        match self.find(&other.denom) {
            Some(i) => {
                assert(self@[i as int] == self.0@[i as int]@);
                let held: u128 = self.0[i].amount;
                if held <= other.amount {
                    Ok(self.with_rest(i, 0))
                } else {
                    Ok(self.with_rest(i, held - other.amount))
                }
            },
            None => Err(StdError::underflow(0, other.amount)),
        }
    }

    /// Leaves `rest` at the place `i`, or takes the place out where that is nothing.
    fn with_rest(self, i: usize, rest: u128) -> (balance: Balance)
        requires
            i < self@.len(),
        ensures
            balance@ == if rest == 0 {
                self@.remove(i as int)
            } else {
                with_amount(self@, i as int, rest as nat)
            },
    {
        let ghost before = self@;
        let mut coins = self.0;
        if rest == 0 {
            coins.remove(i);
            assert(coins_view(coins@) =~= before.remove(i as int));
        } else {
            let denom = coins[i].denom.clone();
            coins[i] = Coin { denom, amount: rest };
            assert(coins_view(coins@) =~= with_amount(before, i as int, rest as nat));
        }
        Balance(coins)
    }

    /// Whether the balance holds nothing of any denomination.
    pub fn is_empty(&self) -> (empty: bool)
        ensures
            empty == balance_is_empty(self@),
    {
        let mut i: usize = 0;
        while i < self.0.len()
            invariant
                i <= self.0@.len(),
                forall|j: int| 0 <= j < i ==> (#[trigger] self@[j]).amount == 0,
            decreases self.0@.len() - i,
        {
            assert(self@[i as int] == self.0@[i as int]@);
            if self.0[i].amount != 0 {
                return false;
            }
            i += 1;
        }
        true
    }
}

impl Clone for Balance {
    fn clone(&self) -> (copy: Balance)
        ensures
            copy@ == self@,
    {
        let mut coins: Vec<Coin> = Vec::new();
        let mut i: usize = 0;
        while i < self.0.len()
            invariant
                i <= self.0@.len(),
                coins@ == self.0@.take(i as int),
            decreases self.0@.len() - i,
        {
            coins.push(self.0[i].clone());
            i += 1;
        }
        assert(self.0@.take(i as int) =~= self.0@);
        Balance(coins)
    }
}

} // verus!
