//! Amounts written in decimal.
use vstd::prelude::*;

verus! {

/// The character of a decimal digit.
pub open spec fn digit(d: nat) -> char {
    (48 + d) as u8 as char
}

/// `n` in decimal, most significant digit first and without leading zeros.
pub open spec fn decimal(n: nat) -> Seq<char>
    decreases n,
{
    if n < 10 {
        seq![digit(n)]
    } else {
        decimal(n / 10).push(digit(n % 10))
    }
}

/// `to_string` of `cosmwasm_std::Uint128`, which writes the number it holds in
/// decimal.
#[verifier::external_body]
pub(crate) fn uint128_to_string(amount: u128) -> (text: String)
    ensures
        text@ == decimal(amount as nat),
{
    cosmwasm_std::Uint128(amount).to_string()
}

} // verus!
