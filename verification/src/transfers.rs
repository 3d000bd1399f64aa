//! Validation of payments returned by the lending and swap collaborators.
//!
//! Every mutating collaborator call reports the tokens it actually moved.
//! Before the vault trusts the resulting state, each returned payment
//! must be the position token with the right nonce or the requested
//! token with the requested amount; anything else aborts the operation.
//! Swap returns are split into the wanted token's total and the residual
//! payments owed back to the refund recipient. Tokens are identified
//! here by plain numeric ids that the host layer assigns.

use vstd::prelude::*;

verus! {

use crate::errors::VaultError;

/// One payment as the host hands it over.
#[derive(Clone, Copy, Debug, PartialEq, Eq, Structural)]
pub struct Payment {
    /// Numeric id of the token moved.
    pub token_id: u64,
    /// The token's nonce (zero for fungible tokens).
    pub nonce: u64,
    /// Raw amount moved.
    pub amount: u128,
}

/// What is wrong with one returned payment, if anything: a position
/// token must carry the expected nonce, the requested token the
/// requested amount, and no other token may come back at all.
pub open spec fn back_transfer_error(
    payment: Payment,
    position_token: u64,
    position_nonce: u64,
    expected_token: u64,
    expected_amount: u128,
) -> Option<VaultError> {
    if payment.token_id == position_token {
        if payment.nonce == position_nonce {
            None
        } else {
            Some(VaultError::InvalidLendingPositionNonce)
        }
    } else if payment.token_id == expected_token {
        if payment.amount == expected_amount {
            None
        } else {
            Some(VaultError::ReceivedAmountMismatch)
        }
    } else {
        Some(VaultError::UnexpectedBackTransfer)
    }
}

/// The first faulty payment's error, checked front to back.
pub open spec fn back_transfers_error(
    payments: Seq<Payment>,
    position_token: u64,
    position_nonce: u64,
    expected_token: u64,
    expected_amount: u128,
) -> Option<VaultError>
    decreases payments.len(),
{
    if payments.len() == 0 {
        None
    } else {
        match back_transfer_error(
            payments.first(),
            position_token,
            position_nonce,
            expected_token,
            expected_amount,
        ) {
            Some(e) => Some(e),
            None => back_transfers_error(
                payments.drop_first(),
                position_token,
                position_nonce,
                expected_token,
                expected_amount,
            ),
        }
    }
}

/// Verifies every payment a withdraw or borrow call sent back: the
/// position token must return with its nonce intact, the requested token
/// with exactly the requested amount, and nothing else may arrive. The
/// first faulty payment decides the error.
pub fn check_back_transfers(
    payments: &Vec<Payment>,
    position_token: u64,
    position_nonce: u64,
    expected_token: u64,
    expected_amount: u128,
) -> (r: Result<(), VaultError>)
    ensures
        (r is Ok) <==> back_transfers_error(
            payments@,
            position_token,
            position_nonce,
            expected_token,
            expected_amount,
        ) is None,
        r matches Err(e) ==> back_transfers_error(
            payments@,
            position_token,
            position_nonce,
            expected_token,
            expected_amount,
        ) == Some(e),
{
    let mut i: usize = 0;
    proof {
        assert(payments@.skip(0int) =~= payments@);
    }
    while i < payments.len()
        invariant
            0 <= i <= payments@.len(),
            back_transfers_error(
                payments@,
                position_token,
                position_nonce,
                expected_token,
                expected_amount,
            ) == back_transfers_error(
                payments@.skip(i as int),
                position_token,
                position_nonce,
                expected_token,
                expected_amount,
            ),
        decreases payments@.len() - i,
    {
        let payment = payments[i];
        proof {
            assert(payments@.skip(i as int).first() == payments@[i as int]);
            assert(payments@.skip(i as int).drop_first() =~= payments@.skip(i + 1int));
        }
        if payment.token_id == position_token {
            if payment.nonce != position_nonce {
                return Err(VaultError::InvalidLendingPositionNonce);
            }
        } else if payment.token_id == expected_token {
            if payment.amount != expected_amount {
                return Err(VaultError::ReceivedAmountMismatch);
            }
        } else {
            return Err(VaultError::UnexpectedBackTransfer);
        }
        i = i + 1;
    }
    proof {
        assert(payments@.skip(payments@.len() as int) =~= Seq::<Payment>::empty());
    }
    Ok(())
}

/// Verifies the single payment a repay-with-collateral call sends back:
/// it must be the position token, at the expected nonce.
pub fn check_position_back_transfer(
    payment: &Payment,
    position_token: u64,
    position_nonce: u64,
) -> (r: Result<(), VaultError>)
    ensures
        payment.token_id != position_token ==> (r matches Err(e) && e
            == VaultError::InvalidLendingPositionToken),
        payment.token_id == position_token && payment.nonce != position_nonce ==> (
        r matches Err(e) && e == VaultError::InvalidLendingPositionNonce),
        payment.token_id == position_token && payment.nonce == position_nonce ==> r is Ok,
{
    if payment.token_id != position_token {
        Err(VaultError::InvalidLendingPositionToken)
    } else if payment.nonce != position_nonce {
        Err(VaultError::InvalidLendingPositionNonce)
    } else {
        Ok(())
    }
}

/// Extracts the freshly minted position's nonce from the payments a
/// supply call sent back: the position token arrives last, and only its
/// token id is known in advance.
pub fn position_nonce_from_back_transfers(
    payments: &Vec<Payment>,
    position_token: u64,
) -> (r: Result<u64, VaultError>)
    requires
        payments@.len() > 0,
    ensures
        payments@.last().token_id != position_token ==> (r matches Err(e) && e
            == VaultError::InvalidLendingPositionToken),
        payments@.last().token_id == position_token ==> (r matches Ok(n) && n
            == payments@.last().nonce),
{
    let last = payments[payments.len() - 1];
    if last.token_id != position_token {
        Err(VaultError::InvalidLendingPositionToken)
    } else {
        Ok(last.nonce)
    }
}

/// Total amount of the wanted token among the returned payments.
pub open spec fn wanted_amount_sum(payments: Seq<Payment>, wanted_token: u64) -> int
    decreases payments.len(),
{
    if payments.len() == 0 {
        0
    } else {
        wanted_amount_sum(payments.drop_last(), wanted_token) + if payments.last().token_id
            == wanted_token {
            payments.last().amount as int
        } else {
            0
        }
    }
}

/// The payments that must be forwarded to the refund recipient: all but
/// the wanted token and the echo of the swapped-in payment.
pub open spec fn refunds_of(
    payments: Seq<Payment>,
    wanted_token: u64,
    from_token: u64,
    from_amount: u128,
) -> Seq<Payment>
    decreases payments.len(),
{
    if payments.len() == 0 {
        Seq::empty()
    } else {
        refunds_of(payments.drop_last(), wanted_token, from_token, from_amount) + if payments.last().token_id
            == wanted_token || (payments.last().token_id == from_token && payments.last().amount
            == from_amount) {
            Seq::empty()
        } else {
            seq![payments.last()]
        }
    }
}

/// Prefix sums of wanted amounts never exceed the whole sum.
proof fn lemma_wanted_sum_monotone(payments: Seq<Payment>, n: int, wanted_token: u64)
    requires
        0 <= n <= payments.len(),
    ensures
        0 <= wanted_amount_sum(payments.take(n), wanted_token) <= wanted_amount_sum(
            payments,
            wanted_token,
        ),
    decreases payments.len(),
{
    if payments.len() == 0 {
        assert(payments.take(n) =~= payments);
    } else if n == payments.len() {
        assert(payments.take(n) =~= payments);
        lemma_wanted_sum_monotone(payments.drop_last(), n - 1, wanted_token);
        assert(payments.drop_last().take(n - 1) =~= payments.drop_last());
    } else {
        assert(payments.take(n) =~= payments.drop_last().take(n));
        lemma_wanted_sum_monotone(payments.drop_last(), n, wanted_token);
    }
}

/// Splits a swap's returned payments into the wanted token's total and
/// the residual payments owed to the refund recipient, in their original
/// order. The echo of the swapped-in payment (same token, same amount)
/// is dropped: it is the borrowed amount passing through, not a refund.
pub fn partition_swap_returns(
    payments: &Vec<Payment>,
    from_token: u64,
    from_amount: u128,
    wanted_token: u64,
) -> (r: (u128, Vec<Payment>))
    requires
        wanted_amount_sum(payments@, wanted_token) <= u128::MAX,
    ensures
        r.0 == wanted_amount_sum(payments@, wanted_token),
        r.1@ == refunds_of(payments@, wanted_token, from_token, from_amount),
{
    let mut wanted_amount: u128 = 0;
    let mut refunds: Vec<Payment> = Vec::new();
    let mut i: usize = 0;
    proof {
        assert(payments@.take(0int) =~= Seq::<Payment>::empty());
    }
    while i < payments.len()
        invariant
            0 <= i <= payments@.len(),
            wanted_amount_sum(payments@, wanted_token) <= u128::MAX,
            wanted_amount == wanted_amount_sum(payments@.take(i as int), wanted_token),
            refunds@ == refunds_of(payments@.take(i as int), wanted_token, from_token, from_amount),
        decreases payments@.len() - i,
    {
        let payment = payments[i];
        proof {
            assert(payments@.take(i + 1int).drop_last() =~= payments@.take(i as int));
            assert(payments@.take(i + 1int).last() == payments@[i as int]);
            lemma_wanted_sum_monotone(payments@, i + 1int, wanted_token);
        }
        if payment.token_id == wanted_token {
            wanted_amount = wanted_amount + payment.amount;
        } else if payment.token_id == from_token && payment.amount == from_amount {
            // the swapped-in amount coming back through; not a refund
        } else {
            refunds.push(payment);
        }
        proof {
            assert(refunds@ =~= refunds_of(
                payments@.take(i + 1int),
                wanted_token,
                from_token,
                from_amount,
            ));
        }
        i = i + 1;
    }
    proof {
        assert(payments@.take(payments@.len() as int) =~= payments@);
    }
    (wanted_amount, refunds)
}

} // verus!
