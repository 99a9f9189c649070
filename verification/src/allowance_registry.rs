//! Spending delegations: what an owner lets a spender move out of the
//! owner's balance.

use vstd::prelude::*;
use crate::amount::{checked_add, checked_sub, sum_fits, TokenBalance};
use crate::state::{inv_reads_records_only, Ledger, LedgerView};
use crate::types::{AccountId, Error, Event};

verus! {

impl LedgerView {
    /// Raises what `spender` may move out of `owner`'s balance by `amount`
    /// and emits an `Approval`. Approvals add up; none replaces another.
    /// Refused when `owner` has no balance entry and when the new allowance
    /// does not fit.
    pub open spec fn approve(self, owner: AccountId, spender: AccountId, amount: TokenBalance) -> Result<
        LedgerView,
        Error,
    > {
        if !self.balances.dom().contains(owner) {
            Err(Error::UnknownAccount)
        } else if !sum_fits(self.allowance(owner, spender), amount) {
            Err(Error::ArithmeticOverflow)
        } else {
            Ok(
                LedgerView {
                    allowances: self.allowances.insert(
                        (owner, spender),
                        (self.allowance(owner, spender) + amount) as TokenBalance,
                    ),
                    events: self.events.push(Event::Approval(owner, spender, amount)),
                    ..self
                },
            )
        }
    }

    /// `spender` moves `amount` from `from` to `to` on the strength of what
    /// `from` approved.
    ///
    /// Refused when `from` never approved `spender` and when the allowance
    /// is less than `amount`. Otherwise the allowance is lowered by
    /// `amount`, an `Approval` is emitted, and the transfer is made in the
    /// state so reached; when the transfer is refused the whole operation is.
    pub open spec fn transfer_from(
        self,
        spender: AccountId,
        from: AccountId,
        to: AccountId,
        amount: TokenBalance,
    ) -> Result<LedgerView, Error> {
        if !self.allowances.dom().contains((from, spender)) {
            Err(Error::NoAllowance)
        } else if self.allowances[(from, spender)] < amount {
            Err(Error::InsufficientAllowance)
        } else {
            LedgerView {
                allowances: self.allowances.insert(
                    (from, spender),
                    (self.allowances[(from, spender)] - amount) as TokenBalance,
                ),
                events: self.events.push(Event::Approval(from, spender, amount)),
                ..self
            }.transfer(from, to, amount)
        }
    }

    /// `spender` pulls `amount` out of `owner`'s balance into its own.
    pub open spec fn spend_from(self, owner: AccountId, spender: AccountId, amount: TokenBalance) -> Result<
        LedgerView,
        Error,
    > {
        self.transfer_from(spender, owner, spender, amount)
    }
}

/// Two approvals in a row that both succeed leave the allowance at what it
/// was plus both amounts: for a pair without an allowance, at their sum.
pub proof fn approve_accumulates(
    s: LedgerView,
    owner: AccountId,
    spender: AccountId,
    first: TokenBalance,
    second: TokenBalance,
)
    requires
        s.approve(owner, spender, first) is Ok,
        s.approve(owner, spender, first)->Ok_0.approve(owner, spender, second) is Ok,
    ensures
        ({
            let n = s.approve(owner, spender, first)->Ok_0.approve(owner, spender, second)->Ok_0;
            &&& n.allowance(owner, spender) == s.allowance(owner, spender) + first + second
            &&& !s.allowances.dom().contains((owner, spender)) ==> n.allowance(owner, spender) == first
                + second
        }),
{
}

/// A successful `transfer_from` lowers the allowance by exactly the amount
/// moved, and leaves the sum of the two balances as it was.
pub proof fn transfer_from_spends_allowance(
    s: LedgerView,
    spender: AccountId,
    from: AccountId,
    to: AccountId,
    amount: TokenBalance,
)
    requires
        s.transfer_from(spender, from, to, amount) is Ok,
    ensures
        ({
            let n = s.transfer_from(spender, from, to, amount)->Ok_0;
            &&& n.allowance(from, spender) + amount == s.allowance(from, spender)
            &&& n.balance_of(from) + n.balance_of(to) == s.balance_of(from) + s.balance_of(to)
        }),
{
}

/// Where the allowance suffices but the transfer would be refused,
/// `transfer_from` is refused for the same reason: the lowered allowance is
/// never seen.
pub proof fn transfer_from_fails_as_the_transfer_does(
    s: LedgerView,
    spender: AccountId,
    from: AccountId,
    to: AccountId,
    amount: TokenBalance,
)
    requires
        s.allowances.dom().contains((from, spender)),
        amount <= s.allowances[(from, spender)],
        s.transfer(from, to, amount) is Err,
    ensures
        s.transfer_from(spender, from, to, amount) == Err::<LedgerView, Error>(
            s.transfer(from, to, amount)->Err_0,
        ),
        s.after(s.transfer_from(spender, from, to, amount)) == s,
{
}

/// Whoever gave an allowance has a balance entry, so `transfer_from` is
/// never refused for want of one.
pub proof fn transfer_from_knows_the_owner(
    s: LedgerView,
    spender: AccountId,
    from: AccountId,
    to: AccountId,
    amount: TokenBalance,
)
    requires
        s.inv(),
    ensures
        s.transfer_from(spender, from, to, amount) != Err::<LedgerView, Error>(Error::UnknownAccount),
{
    if s.allowances.dom().contains((from, spender)) {
        assert(s.balances.dom().contains(from));
    }
}

impl Ledger {
    /// What `spender` may still move out of `owner`'s balance; zero where
    /// `owner` never approved `spender`.
    pub fn allowance(&self, owner: AccountId, spender: AccountId) -> (amount: TokenBalance)
        requires
            self.wf(),
        ensures
            amount == self@.allowance(owner, spender),
    {
        match self.allowances.get(&(owner, spender)) {
            Some(allowed) => *allowed,
            None => 0,
        }
    }

    /// Raises what `spender` may move out of `owner`'s balance by `amount`.
    pub fn approve(&mut self, owner: AccountId, spender: AccountId, amount: TokenBalance) -> (r: Result<
        (),
        Error,
    >)
        requires
            old(self).wf(),
        ensures
            final(self).wf(),
            match old(self)@.approve(owner, spender, amount) {
                Ok(next) => r is Ok && final(self)@ == next,
                Err(e) => r == Err::<(), Error>(e) && final(self)@ == old(self)@,
            },
    {
        if !self.balances.contains_key(&owner) {
            return Err(Error::UnknownAccount);
        }
        let raised = match checked_add(self.allowance(owner, spender), amount) {
            Some(raised) => raised,
            None => { return Err(Error::ArithmeticOverflow); },
        };
        let ghost before = self@;
        self.allowances.insert((owner, spender), raised);
        self.events.push(Event::Approval(owner, spender, amount));
        proof {
            let next = before.approve(owner, spender, amount)->Ok_0;
            assert(self@ =~= next);
            inv_reads_records_only(before, next);
        }
        Ok(())
    }

    /// `spender` moves `amount` from `from` to `to` on the strength of what
    /// `from` approved. The transfer is checked before the allowance is
    /// touched, so a refusal at any point leaves the allowance as it was.
    pub fn transfer_from(
        &mut self,
        spender: AccountId,
        from: AccountId,
        to: AccountId,
        amount: TokenBalance,
    ) -> (r: Result<(), Error>)
        requires
            old(self).wf(),
        ensures
            final(self).wf(),
            match old(self)@.transfer_from(spender, from, to, amount) {
                Ok(next) => r is Ok && final(self)@ == next,
                Err(e) => r == Err::<(), Error>(e) && final(self)@ == old(self)@,
            },
    {
        let allowed = match self.allowances.get(&(from, spender)) {
            Some(allowed) => *allowed,
            None => { return Err(Error::NoAllowance); },
        };
        let left = match checked_sub(allowed, amount) {
            Some(left) => left,
            None => { return Err(Error::InsufficientAllowance); },
        };
        if let Err(e) = self.check_transfer(from, to, amount) {
            return Err(e);
        }
        let ghost before = self@;
        self.allowances.insert((from, spender), left);
        self.events.push(Event::Approval(from, spender, amount));
        proof {
            let spent = LedgerView {
                allowances: before.allowances.insert((from, spender), left),
                events: before.events.push(Event::Approval(from, spender, amount)),
                ..before
            };
            assert(self@ =~= spent);
            inv_reads_records_only(before, spent);
        }
        self.transfer(from, to, amount)
    }

    /// `spender` pulls `amount` out of `owner`'s balance into its own.
    pub fn spend_from(&mut self, owner: AccountId, spender: AccountId, amount: TokenBalance) -> (r: Result<
        (),
        Error,
    >)
        requires
            old(self).wf(),
        ensures
            final(self).wf(),
            match old(self)@.spend_from(owner, spender, amount) {
                Ok(next) => r is Ok && final(self)@ == next,
                Err(e) => r == Err::<(), Error>(e) && final(self)@ == old(self)@,
            },
    {
        self.transfer_from(spender, owner, spender, amount)
    }
}

} // verus!
