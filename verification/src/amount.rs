//! Token amounts and the only two arithmetic operations the ledger performs
//! on them.

use vstd::prelude::*;

verus! {

/// Quantity of tokens.
pub type TokenBalance = u128;

/// Whether `a + b` can be held by a [`TokenBalance`].
pub open spec fn sum_fits(a: TokenBalance, b: TokenBalance) -> bool {
    a + b <= u128::MAX
}

/// Adds two amounts through `CheckedAdd::checked_add` of `sp_runtime::traits`.
///
/// Trusted: the result is the exact sum when it fits the amount type and
/// `None` when it does not. For `u128` the outside implementation forwards
/// to the checked addition of the primitive type.
#[verifier::external_body]
pub(crate) fn checked_add(a: TokenBalance, b: TokenBalance) -> (r: Option<TokenBalance>)
    ensures
        r == (if sum_fits(a, b) { Some((a + b) as u128) } else { None::<u128> }),
{
    sp_runtime::traits::CheckedAdd::checked_add(&a, &b)
}

/// Subtracts `b` from `a` through `CheckedSub::checked_sub` of
/// `sp_runtime::traits`.
///
/// Trusted: the result is the exact difference when `b` does not exceed `a`
/// and `None` when it does. For `u128` the outside implementation forwards
/// to the checked subtraction of the primitive type.
#[verifier::external_body]
pub(crate) fn checked_sub(a: TokenBalance, b: TokenBalance) -> (r: Option<TokenBalance>)
    ensures
        r == (if b <= a { Some((a - b) as u128) } else { None::<u128> }),
{
    sp_runtime::traits::CheckedSub::checked_sub(&a, &b)
}

} // verus!
